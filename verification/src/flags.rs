//! The record of every lenient decision taken while a value was coerced.

use vstd::prelude::*;
use crate::error::{ErrorModel, ParsingError};
use crate::value::{Value, ValueModel};

verus! {

/// One deviation from an exact match.
#[derive(Debug, PartialEq, Eq)]
pub enum Flag {
    /// An object was read as a map; the object is kept.
    ObjectToMap(Value),
    /// The value under this key could not be coerced; the entry was dropped.
    MapValueParseError(String, ParsingError),
    /// The key of the entry at this position is no valid key; the entry was dropped.
    MapKeyParseError(usize, ParsingError),
    /// The list item at this position could not be coerced and was dropped.
    ArrayItemParseError(usize, ParsingError),
    /// The class field of this name is missing or could not be coerced and was left out.
    FieldParseError(String, ParsingError),
    /// An optional value was absent or null.
    OptionalDefaultFromNoValue,
    /// An optional value was there but could not be coerced, and became null.
    DefaultButHadUnparseableValue(ParsingError),
    /// An integer was read from this text.
    StringToInt(String),
    /// A decimal number was made from this integer.
    IntToFloat(i64),
    /// The value was recovered from a fenced block.
    ObjectFromMarkdown,
    /// The union alternative at this position was chosen.
    UnionMatch(usize),
}

/// The mathematical value of a [`Flag`].
pub enum FlagModel {
    ObjectToMap(ValueModel),
    MapValueParseError(Seq<char>, ErrorModel),
    MapKeyParseError(usize, ErrorModel),
    ArrayItemParseError(usize, ErrorModel),
    FieldParseError(Seq<char>, ErrorModel),
    OptionalDefaultFromNoValue,
    DefaultButHadUnparseableValue(ErrorModel),
    StringToInt(Seq<char>),
    IntToFloat(i64),
    ObjectFromMarkdown,
    UnionMatch(usize),
}

impl View for Flag {
    type V = FlagModel;

    open spec fn view(&self) -> FlagModel {
        match self {
            Flag::ObjectToMap(v) => FlagModel::ObjectToMap(v@),
            Flag::MapValueParseError(key, e) => FlagModel::MapValueParseError(key@, e@),
            Flag::MapKeyParseError(index, e) => FlagModel::MapKeyParseError(*index, e@),
            Flag::ArrayItemParseError(index, e) => FlagModel::ArrayItemParseError(*index, e@),
            Flag::FieldParseError(name, e) => FlagModel::FieldParseError(name@, e@),
            Flag::OptionalDefaultFromNoValue => FlagModel::OptionalDefaultFromNoValue,
            Flag::DefaultButHadUnparseableValue(e) => FlagModel::DefaultButHadUnparseableValue(e@),
            Flag::StringToInt(text) => FlagModel::StringToInt(text@),
            Flag::IntToFloat(n) => FlagModel::IntToFloat(*n),
            Flag::ObjectFromMarkdown => FlagModel::ObjectFromMarkdown,
            Flag::UnionMatch(index) => FlagModel::UnionMatch(*index),
        }
    }
}

/// What one flag adds to the score of a coerced value. A lower score is a
/// better match.
pub open spec fn flag_score(flag: FlagModel) -> nat {
    match flag {
        FlagModel::ObjectToMap(_) => 1,
        FlagModel::MapValueParseError(_, _) => 1,
        FlagModel::MapKeyParseError(_, _) => 1,
        FlagModel::ArrayItemParseError(index, _) => 1 + index as nat,
        FlagModel::FieldParseError(_, _) => 100,
        FlagModel::OptionalDefaultFromNoValue => 1,
        FlagModel::DefaultButHadUnparseableValue(_) => 2,
        FlagModel::StringToInt(_) => 1,
        FlagModel::IntToFloat(_) => 1,
        FlagModel::ObjectFromMarkdown => 0,
        FlagModel::UnionMatch(_) => 0,
    }
}

/// The sum of the scores of the first `n` flags.
pub open spec fn flags_score_upto(flags: Seq<FlagModel>, n: nat) -> nat
    decreases n,
{
    if n == 0 || n > flags.len() {
        0
    } else {
        flags_score_upto(flags, (n - 1) as nat) + flag_score(flags[n - 1])
    }
}

/// The sum of the scores of all flags.
pub open spec fn flags_score(flags: Seq<FlagModel>) -> nat {
    flags_score_upto(flags, flags.len())
}

/// `n`, or the largest `u64` where `n` exceeds it.
pub open spec fn saturate(n: nat) -> u64 {
    if n > u64::MAX {
        u64::MAX
    } else {
        n as u64
    }
}

/// Adds two scores, stopping at the largest `u64`.
pub fn add_scores(a: u64, b: u64) -> (r: u64)
    ensures
        r == saturate((a + b) as nat),
{
    if a > u64::MAX - b {
        u64::MAX
    } else {
        a + b
    }
}

impl Flag {
    /// What this flag adds to a score, stopping at the largest `u64`.
    pub fn score(&self) -> (r: u64)
        ensures
            r == saturate(flag_score(self@)),
    {
        match self {
            Flag::ObjectToMap(_) => 1,
            Flag::MapValueParseError(_, _) => 1,
            Flag::MapKeyParseError(_, _) => 1,
            Flag::ArrayItemParseError(index, _) => add_scores(1, *index as u64),
            Flag::FieldParseError(_, _) => 100,
            Flag::OptionalDefaultFromNoValue => 1,
            Flag::DefaultButHadUnparseableValue(_) => 2,
            Flag::StringToInt(_) => 1,
            Flag::IntToFloat(_) => 1,
            Flag::ObjectFromMarkdown => 0,
            Flag::UnionMatch(_) => 0,
        }
    }
}

/// The views of a sequence of flags.
pub open spec fn flags_view(flags: Seq<Flag>) -> Seq<FlagModel> {
    Seq::new(flags.len(), |i: int| flags[i]@)
}

/// The flags attached to one coerced node, in the order in which they were
/// added. Flags can be added and read, never removed.
#[derive(Debug, PartialEq, Eq)]
pub struct DeserializerConditions {
    flags: Vec<Flag>,
}

impl View for DeserializerConditions {
    type V = Seq<FlagModel>;

    closed spec fn view(&self) -> Seq<FlagModel> {
        flags_view(self.flags@)
    }
}

impl DeserializerConditions {
    /// No flags.
    pub fn new() -> (r: Self)
        ensures
            r@ == Seq::<FlagModel>::empty(),
    {
        let r = DeserializerConditions { flags: Vec::new() };
        assert(r@ =~= Seq::<FlagModel>::empty());
        r
    }

    /// Appends `flag`.
    pub fn add_flag(&mut self, flag: Flag)
        ensures
            final(self)@ == old(self)@.push(flag@),
    {
        self.flags.push(flag);
        assert(self@ =~= old(self)@.push(flag@));
    }

    /// The flags, in the order in which they were added.
    pub fn flags(&self) -> (r: &Vec<Flag>)
        ensures
            flags_view(r@) == self@,
    {
        &self.flags
    }

    /// The number of flags.
    pub fn len(&self) -> (r: usize)
        ensures
            r == self@.len(),
    {
        self.flags.len()
    }

    /// The sum of the scores of the flags, stopping at the largest `u64`.
    pub fn score(&self) -> (r: u64)
        ensures
            r == saturate(flags_score(self@)),
    {
        let mut total: u64 = 0;
        let mut i: usize = 0;
        while i < self.flags.len()
            invariant
                i <= self.flags.len(),
                self@.len() == self.flags.len(),
                total == saturate(flags_score_upto(self@, i as nat)),
            decreases self.flags.len() - i,
        {
            assert(self@[i as int] == self.flags[i as int]@);
            total = add_scores(total, self.flags[i].score());
            i += 1;
        }
        total
    }
}

} // verus!
