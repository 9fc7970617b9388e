//! The environment variables that clients need.

use vstd::hash_set::StringHashSet;
use vstd::prelude::*;
use vstd::string::*;
use crate::ir::repr::{
    expression_pairs_model, expressions_model, options_model, Expression, ExpressionModel,
    Identifier, IdentifierModel,
};
use crate::lookup::{first_from, first_index, key_index, is_under};
use crate::text::{str_eq, strings_view};

verus! {

/// The environment variables of a provider: each with the option that
/// stands in for it where a client sets the option, or without one where
/// the variable is needed in any case.
pub open spec fn provider_env_vars(provider: Seq<char>) -> Seq<(Option<Seq<char>>, Seq<char>)> {
    if provider == "aws-bedrock"@ {
        seq![
            (None, "AWS_ACCESS_KEY_ID"@),
            (None, "AWS_SECRET_ACCESS_KEY"@),
            (Some("region"@), "AWS_REGION"@),
        ]
    } else if provider == "openai"@ {
        seq![(Some("api_key"@), "OPENAI_API_KEY"@)]
    } else if provider == "anthropic"@ {
        seq![(Some("api_key"@), "ANTHROPIC_API_KEY"@)]
    } else if provider == "google-ai"@ {
        seq![(Some("api_key"@), "GOOGLE_API_KEY"@)]
    } else if provider == "vertex-ai"@ {
        seq![
            (Some("credentials"@), "GOOGLE_APPLICATION_CREDENTIALS"@),
            (Some("credentials_content"@), "GOOGLE_APPLICATION_CREDENTIALS_CONTENT"@),
        ]
    } else if provider == "azure-openai"@ {
        seq![(Some("api_key"@), "AZURE_OPENAI_API_KEY"@)]
    } else if provider == "openai-generic"@ {
        seq![(Some("api_key"@), "OPENAI_API_KEY"@)]
    } else {
        Seq::empty()
    }
}

/// The views of a table of environment variables.
pub open spec fn table_view(table: Seq<(Option<&'static str>, &'static str)>) -> Seq<
    (Option<Seq<char>>, Seq<char>),
> {
    Seq::new(
        table.len(),
        |i: int|
            (
                match table[i].0 {
                    Some(option) => Some(option@),
                    None => None,
                },
                table[i].1@,
            ),
    )
}

/// The environment variables of a provider: each with the option that
/// stands in for it where a client sets the option, or without one where
/// the variable is needed in any case. A provider that is not known has none.
pub fn provider_to_env_vars(provider: &str) -> (r: Vec<(Option<&'static str>, &'static str)>)
    ensures
        table_view(r@) == provider_env_vars(provider@),
{
    let r: Vec<(Option<&'static str>, &'static str)> = if str_eq(provider, "aws-bedrock") {
        vec![
            (None, "AWS_ACCESS_KEY_ID"),
            (None, "AWS_SECRET_ACCESS_KEY"),
            (Some("region"), "AWS_REGION"),
        ]
    } else if str_eq(provider, "openai") {
        vec![(Some("api_key"), "OPENAI_API_KEY")]
    } else if str_eq(provider, "anthropic") {
        vec![(Some("api_key"), "ANTHROPIC_API_KEY")]
    } else if str_eq(provider, "google-ai") {
        vec![(Some("api_key"), "GOOGLE_API_KEY")]
    } else if str_eq(provider, "vertex-ai") {
        vec![
            (Some("credentials"), "GOOGLE_APPLICATION_CREDENTIALS"),
            (Some("credentials_content"), "GOOGLE_APPLICATION_CREDENTIALS_CONTENT"),
        ]
    } else if str_eq(provider, "azure-openai") {
        vec![(Some("api_key"), "AZURE_OPENAI_API_KEY")]
    } else if str_eq(provider, "openai-generic") {
        vec![(Some("api_key"), "OPENAI_API_KEY")]
    } else {
        Vec::new()
    };
    assert(table_view(r@) =~= provider_env_vars(provider@));
    r
}

/// The environment variables that an expression names, in order.
pub open spec fn expression_env_vars(e: ExpressionModel) -> Seq<Seq<char>>
    decreases e, 0nat,
{
    match e {
        ExpressionModel::Identifier(IdentifierModel::ENV(name)) => seq![name],
        ExpressionModel::List(items) => items_env_vars(items, items.len()),
        ExpressionModel::MapOf(pairs) => pairs_env_vars(pairs, pairs.len()),
        _ => Seq::empty(),
    }
}

/// The environment variables that the first `n` expressions name.
pub open spec fn items_env_vars(items: Seq<ExpressionModel>, n: nat) -> Seq<Seq<char>>
    decreases items, n,
{
    if n == 0 || n > items.len() {
        Seq::empty()
    } else {
        items_env_vars(items, (n - 1) as nat) + expression_env_vars(items[n - 1])
    }
}

/// The environment variables that the first `n` pairs name, the key of each
/// pair before its value.
pub open spec fn pairs_env_vars(pairs: Seq<(ExpressionModel, ExpressionModel)>, n: nat) -> Seq<
    Seq<char>,
>
    decreases pairs, n,
{
    if n == 0 || n > pairs.len() {
        Seq::empty()
    } else {
        pairs_env_vars(pairs, (n - 1) as nat) + expression_env_vars(pairs[n - 1].0)
            + expression_env_vars(pairs[n - 1].1)
    }
}

/// Moves the strings of `more` to the end of `all`.
fn append_strings(all: &mut Vec<String>, more: Vec<String>)
    ensures
        strings_view(final(all)@) == strings_view(old(all)@) + strings_view(more@),
{
    let mut more = more;
    let ghost first = all@;
    let ghost second = more@;
    all.append(&mut more);
    assert(strings_view(all@) =~= strings_view(first) + strings_view(second));
}

impl Expression {
    /// The environment variables that this expression names, in order.
    pub fn required_env_vars(&self) -> (r: Vec<String>)
        ensures
            strings_view(r@) == expression_env_vars(self@),
        decreases self,
    {
        match self {
            Expression::Identifier(Identifier::ENV(name)) => {
                let mut out: Vec<String> = Vec::new();
                out.push(name.clone());
                assert(strings_view(out@) =~= seq![name@]);
                out
            },
            Expression::List(items) => {
                let mut out: Vec<String> = Vec::new();
                let mut i: usize = 0;
                let ghost models = expressions_model(items@);
                assert(strings_view(out@) =~= Seq::empty());
                while i < items.len()
                    invariant
                        i <= items.len(),
                        self matches Expression::List(own) && own == items,
                        models == expressions_model(items@),
                        strings_view(out@) == items_env_vars(models, i as nat),
                    decreases items.len() - i,
                {
                    assert(models[i as int] == items@[i as int]@);
                    let more = items[i].required_env_vars();
                    append_strings(&mut out, more);
                    i += 1;
                }
                out
            },
            Expression::MapOf(pairs) => {
                let mut out: Vec<String> = Vec::new();
                let mut i: usize = 0;
                let ghost models = expression_pairs_model(pairs@);
                assert(strings_view(out@) =~= Seq::empty());
                while i < pairs.len()
                    invariant
                        i <= pairs.len(),
                        self matches Expression::MapOf(own) && own == pairs,
                        models == expression_pairs_model(pairs@),
                        strings_view(out@) == pairs_env_vars(models, i as nat),
                    decreases pairs.len() - i,
                {
                    let pair = &pairs[i];
                    assert(models[i as int] == (pair.0@, pair.1@));
                    let from_key = pair.0.required_env_vars();
                    append_strings(&mut out, from_key);
                    let from_value = pair.1.required_env_vars();
                    append_strings(&mut out, from_value);
                    i += 1;
                }
                out
            },
            _ => {
                let out: Vec<String> = Vec::new();
                assert(strings_view(out@) =~= Seq::empty());
                out
            },
        }
    }
}

/// The environment variables that the first `n` options name.
pub open spec fn options_env_vars(options: Seq<(Seq<char>, ExpressionModel)>, n: nat) -> Set<
    Seq<char>,
>
    decreases n,
{
    if n == 0 || n > options.len() {
        Set::empty()
    } else {
        options_env_vars(options, (n - 1) as nat).union(
            expression_env_vars(options[n - 1].1).to_set(),
        )
    }
}

/// Whether a provider's variable is needed by a client with these options:
/// it is, unless an option stands in for it and the client sets that option.
pub open spec fn is_needed(
    options: Seq<(Seq<char>, ExpressionModel)>,
    entry: (Option<Seq<char>>, Seq<char>),
) -> bool {
    match entry.0 {
        Some(option) => key_index(options, option) is None,
        None => true,
    }
}

/// The variables among the first `n` of a provider's table that a client
/// with these options needs.
pub open spec fn needed_vars(
    options: Seq<(Seq<char>, ExpressionModel)>,
    table: Seq<(Option<Seq<char>>, Seq<char>)>,
    n: nat,
) -> Set<Seq<char>>
    decreases n,
{
    if n == 0 || n > table.len() {
        Set::empty()
    } else if is_needed(options, table[n - 1]) {
        needed_vars(options, table, (n - 1) as nat).insert(table[n - 1].1)
    } else {
        needed_vars(options, table, (n - 1) as nat)
    }
}

/// The environment variables that a client of this provider with these
/// options needs: those that its options name, and those of the provider
/// that no option of the client stands in for.
pub open spec fn client_env_vars(options: Seq<(Seq<char>, ExpressionModel)>, provider: Seq<char>) -> Set<
    Seq<char>,
> {
    options_env_vars(options, options.len()).union(
        needed_vars(options, provider_env_vars(provider), provider_env_vars(provider).len()),
    )
}

/// The set of a longer prefix is that of the prefix with one more element.
pub proof fn lemma_take_to_set(s: Seq<Seq<char>>, j: int)
    requires
        0 <= j < s.len(),
    ensures
        s.take(j + 1).to_set() == s.take(j).to_set().insert(s[j]),
{
    let longer = s.take(j + 1);
    let shorter = s.take(j);
    let a = longer.to_set();
    let b = shorter.to_set().insert(s[j]);
    assert forall|x: Seq<char>| a.contains(x) <==> b.contains(x) by {
        if a.contains(x) {
            let i = choose|i: int| 0 <= i < longer.len() && longer[i] == x;
            if i < j {
                assert(shorter[i] == x);
                assert(shorter.contains(x));
            }
        }
        if b.contains(x) {
            if x == s[j] {
                assert(longer[j] == x);
                assert(longer.contains(x));
            } else {
                let i = choose|i: int| 0 <= i < shorter.len() && shorter[i] == x;
                assert(longer[i] == x);
                assert(longer.contains(x));
            }
        }
    }
    assert(a =~= b);
}

/// Whether one of the options has this name.
pub fn has_option(options: &Vec<(String, Expression)>, name: &str) -> (r: bool)
    ensures
        r == key_index(options_model(options@), name@).is_some(),
{
    let ghost model = options_model(options@);
    let ghost wanted = is_under::<ExpressionModel>(name@);
    let mut i: usize = 0;
    while i < options.len()
        invariant
            i <= options.len(),
            model == options_model(options@),
            wanted == is_under::<ExpressionModel>(name@),
            first_index(model, wanted) == first_from(model, wanted, i as int),
        decreases options.len() - i,
    {
        assert(model[i as int].0 == options@[i as int].0@);
        if str_eq(options[i].0.as_str(), name) {
            return true;
        }
        i += 1;
    }
    false
}

/// The set of a sequence with one more element at its end.
pub proof fn lemma_push_to_set(s: Seq<Seq<char>>, x: Seq<char>)
    ensures
        s.push(x).to_set() == s.to_set().insert(x),
        !s.to_set().contains(x) && s.no_duplicates() ==> s.push(x).no_duplicates(),
{
    let longer = s.push(x);
    assert(longer.take(s.len() as int) =~= s);
    assert(longer.take(longer.len() as int) =~= longer);
    lemma_take_to_set(longer, s.len() as int);
    if !s.to_set().contains(x) && s.no_duplicates() {
        assert forall|i: int, j: int|
            0 <= i < longer.len() && 0 <= j < longer.len() && i != j implies longer[i]
            != longer[j] by {
            if i < s.len() {
                assert(s.contains(s[i]));
            }
            if j < s.len() {
                assert(s.contains(s[j]));
            }
        }
    }
}

/// Puts `name` at the end of `names` unless it is there already.
fn note(seen: &mut StringHashSet, names: &mut Vec<String>, name: String)
    requires
        old(seen)@ == strings_view(old(names)@).to_set(),
        strings_view(old(names)@).no_duplicates(),
    ensures
        final(seen)@ == strings_view(final(names)@).to_set(),
        strings_view(final(names)@).no_duplicates(),
        final(seen)@ == old(seen)@.insert(name@),
{
    let ghost before = strings_view(names@);
    if seen.insert(name.clone()) {
        proof {
            lemma_push_to_set(before, name@);
        }
        names.push(name);
        assert(strings_view(names@) =~= before.push(name@));
    } else {
        assert(seen@ =~= old(seen)@);
    }
}

/// The environment variables that a client of this provider with these
/// options needs, each once, in the order in which they are first met: those
/// that the options name, then those of the provider.
pub fn required_env_vars_of(options: &Vec<(String, Expression)>, provider: &str) -> (r: Vec<String>)
    ensures
        strings_view(r@).to_set() == client_env_vars(options_model(options@), provider@),
        strings_view(r@).no_duplicates(),
{
    let ghost model = options_model(options@);
    let mut vars = StringHashSet::new();
    let mut names: Vec<String> = Vec::new();
    let mut i: usize = 0;
    assert(strings_view(names@).to_set() =~= Set::empty());
    while i < options.len()
        invariant
            i <= options.len(),
            model == options_model(options@),
            vars@ == options_env_vars(model, i as nat),
            vars@ == strings_view(names@).to_set(),
            strings_view(names@).no_duplicates(),
        decreases options.len() - i,
    {
        assert(model[i as int].1 == options@[i as int].1@);
        let named = options[i].1.required_env_vars();
        let ghost found = strings_view(named@);
        let ghost before = vars@;
        let mut j: usize = 0;
        assert(found.take(0).to_set() =~= Set::empty());
        while j < named.len()
            invariant
                j <= named.len(),
                found == strings_view(named@),
                vars@ == before.union(found.take(j as int).to_set()),
                vars@ == strings_view(names@).to_set(),
                strings_view(names@).no_duplicates(),
            decreases named.len() - j,
        {
            proof {
                lemma_take_to_set(found, j as int);
            }
            note(&mut vars, &mut names, named[j].clone());
            assert(vars@ =~= before.union(found.take(j + 1).to_set()));
            j += 1;
        }
        assert(found.take(named.len() as int) =~= found);
        i += 1;
    }
    let table = provider_to_env_vars(provider);
    let ghost rows = table_view(table@);
    let ghost from_options = vars@;
    let mut k: usize = 0;
    while k < table.len()
        invariant
            k <= table.len(),
            model == options_model(options@),
            rows == table_view(table@),
            vars@ == from_options.union(needed_vars(model, rows, k as nat)),
            vars@ == strings_view(names@).to_set(),
            strings_view(names@).no_duplicates(),
        decreases table.len() - k,
    {
        let row = &table[k];
        assert(rows[k as int].1 == row.1@);
        let needed = match row.0 {
            Some(option) => !has_option(options, option),
            None => true,
        };
        if needed {
            note(&mut vars, &mut names, String::from_str(row.1));
            assert(vars@ =~= from_options.union(needed_vars(model, rows, (k + 1) as nat)));
        }
        k += 1;
    }
    names
}

} // verus!
