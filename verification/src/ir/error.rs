//! Failures of reading the intermediate representation.

use vstd::prelude::*;
use vstd::string::*;
use crate::ir::repr::{Expression, ExpressionModel};

verus! {

/// The kinds of item that are looked up by name.
#[derive(Copy, Debug, PartialEq, Eq, Structural)]
pub enum ItemKind {
    Enum,
    Class,
    Function,
    Client,
    RetryPolicy,
    TemplateString,
}

impl Clone for ItemKind {
    fn clone(&self) -> (r: Self)
        ensures
            r == *self,
    {
        *self
    }
}

/// Why the intermediate representation could not answer.
#[derive(Debug, PartialEq, Eq)]
pub enum IrError {
    /// The environment has no variable of this name.
    EnvVarNotFound(String),
    /// This expression is no boolean.
    ExpectedBool(Expression),
    /// This expression is no text.
    ExpectedString(Expression),
    /// The text spells no number.
    InvalidNumeric(String),
    /// The template expression is not plain, or could not be rendered.
    RenderFailed(String),
    /// A description evaluated to something other than a text.
    NonStringValue,
    /// No item of this kind has this name.
    NotFound(ItemKind, String),
    /// The function of this name has no client.
    FunctionHasNoClient(String),
}

/// The mathematical value of an [`IrError`].
pub enum IrErrorModel {
    EnvVarNotFound(Seq<char>),
    ExpectedBool(ExpressionModel),
    ExpectedString(ExpressionModel),
    InvalidNumeric(Seq<char>),
    RenderFailed(Seq<char>),
    NonStringValue,
    NotFound(ItemKind, Seq<char>),
    FunctionHasNoClient(Seq<char>),
}

impl View for IrError {
    type V = IrErrorModel;

    open spec fn view(&self) -> IrErrorModel {
        match self {
            IrError::EnvVarNotFound(name) => IrErrorModel::EnvVarNotFound(name@),
            IrError::ExpectedBool(e) => IrErrorModel::ExpectedBool(e@),
            IrError::ExpectedString(e) => IrErrorModel::ExpectedString(e@),
            IrError::InvalidNumeric(text) => IrErrorModel::InvalidNumeric(text@),
            IrError::RenderFailed(source) => IrErrorModel::RenderFailed(source@),
            IrError::NonStringValue => IrErrorModel::NonStringValue,
            IrError::NotFound(kind, name) => IrErrorModel::NotFound(*kind, name@),
            IrError::FunctionHasNoClient(name) => IrErrorModel::FunctionHasNoClient(name@),
        }
    }
}

/// The word for a kind of item.
pub open spec fn item_kind_text(kind: ItemKind) -> Seq<char> {
    match kind {
        ItemKind::Enum => "Enum"@,
        ItemKind::Class => "Class"@,
        ItemKind::Function => "Function"@,
        ItemKind::Client => "Client"@,
        ItemKind::RetryPolicy => "Retry policy"@,
        ItemKind::TemplateString => "Template string"@,
    }
}

impl ItemKind {
    /// The word for this kind of item.
    pub fn describe(&self) -> (r: &'static str)
        ensures
            r@ == item_kind_text(*self),
    {
        match self {
            ItemKind::Enum => "Enum",
            ItemKind::Class => "Class",
            ItemKind::Function => "Function",
            ItemKind::Client => "Client",
            ItemKind::RetryPolicy => "Retry policy",
            ItemKind::TemplateString => "Template string",
        }
    }
}

/// The words for the form of an expression.
pub open spec fn expression_form_text(e: ExpressionModel) -> Seq<char> {
    match e {
        ExpressionModel::Identifier(_) => "an identifier"@,
        ExpressionModel::Bool(_) => "a boolean"@,
        ExpressionModel::Numeric(_) => "a number"@,
        ExpressionModel::String(_) => "a string"@,
        ExpressionModel::RawString(_) => "a raw string"@,
        ExpressionModel::List(_) => "a list"@,
        ExpressionModel::MapOf(_) => "a map"@,
        ExpressionModel::JinjaExpression(_) => "a template expression"@,
    }
}

impl Expression {
    /// The words for the form of this expression.
    pub fn describe_form(&self) -> (r: &'static str)
        ensures
            r@ == expression_form_text(self@),
    {
        match self {
            Expression::Identifier(_) => "an identifier",
            Expression::Bool(_) => "a boolean",
            Expression::Numeric(_) => "a number",
            Expression::String(_) => "a string",
            Expression::RawString(_) => "a raw string",
            Expression::List(_) => "a list",
            Expression::MapOf(_) => "a map",
            Expression::JinjaExpression(_) => "a template expression",
        }
    }
}

/// The message of a failure.
pub open spec fn error_text(e: IrErrorModel) -> Seq<char> {
    match e {
        IrErrorModel::EnvVarNotFound(name) => "Environment variable "@ + name + " not found"@,
        IrErrorModel::ExpectedBool(found) => "Expected bool value, got "@ + expression_form_text(
            found,
        ),
        IrErrorModel::ExpectedString(found) => "Expected string value, got "@
            + expression_form_text(found),
        IrErrorModel::InvalidNumeric(text) => "Invalid numeric value: "@ + text,
        IrErrorModel::RenderFailed(source) => "Could not render expression: "@ + source,
        IrErrorModel::NonStringValue => "Unexpected: Evaluated to non-string value"@,
        IrErrorModel::NotFound(kind, name) => item_kind_text(kind) + " "@ + name + " not found"@,
        IrErrorModel::FunctionHasNoClient(name) => "Function "@ + name + " has no client"@,
    }
}

impl IrError {
    /// The message of this failure.
    pub fn message(&self) -> (r: String)
        ensures
            r@ == error_text(self@),
    {
        match self {
            IrError::EnvVarNotFound(name) => {
                let mut out = String::from_str("Environment variable ");
                out.append(name.as_str());
                out.append(" not found");
                out
            },
            IrError::ExpectedBool(found) => {
                let mut out = String::from_str("Expected bool value, got ");
                out.append(found.describe_form());
                out
            },
            IrError::ExpectedString(found) => {
                let mut out = String::from_str("Expected string value, got ");
                out.append(found.describe_form());
                out
            },
            IrError::InvalidNumeric(text) => {
                let mut out = String::from_str("Invalid numeric value: ");
                out.append(text.as_str());
                out
            },
            IrError::RenderFailed(source) => {
                let mut out = String::from_str("Could not render expression: ");
                out.append(source.as_str());
                out
            },
            IrError::NonStringValue => String::from_str("Unexpected: Evaluated to non-string value"),
            IrError::NotFound(kind, name) => {
                let mut out = String::from_str(kind.describe());
                out.append(" ");
                out.append(name.as_str());
                out.append(" not found");
                out
            },
            IrError::FunctionHasNoClient(name) => {
                let mut out = String::from_str("Function ");
                out.append(name.as_str());
                out.append(" has no client");
                out
            },
        }
    }
}

} // verus!
