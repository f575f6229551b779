//! The decoded record: one insider-transaction disclosure, its reporters,
//! issuer and transaction rows, together with the decoder's error taxonomy
//! and the mathematical views the contracts speak of.

use vstd::prelude::*;
use crate::numbers::Decimal;

verus! {

/// How the reporter is related to the issuer.
#[derive(Clone, Copy, PartialEq, Eq, Structural, Debug)]
pub enum Relation {
    Director,
    Officer,
    Owner,
    Other,
}

/// The relation flags of one reporter, with an optional officer title. The
/// title may be present even when the officer flag is absent: that is a
/// property of the source data, not a decode error.
#[derive(Clone, PartialEq, Eq, Debug)]
pub struct Relations {
    pub relations: Vec<Relation>,
    pub title: Option<String>,
}

/// The insider making the disclosure.
#[derive(Clone, PartialEq, Eq, Debug)]
pub struct Reporter {
    pub name: String,
    pub cik: String,
    pub relation: Relations,
}

/// The company whose securities are transacted.
#[derive(Clone, PartialEq, Eq, Debug)]
pub struct Issuer {
    pub name: String,
    pub cik: String,
    pub symbol: String,
}

/// The closed set of single-letter regulatory transaction codes.
#[derive(Clone, Copy, PartialEq, Eq, Structural, Debug)]
pub enum TransactionCode {
    P,
    S,
    V,
    A,
    D,
    F,
    I,
    M,
    C,
    E,
    H,
    O,
    X,
    G,
    L,
    W,
    Z,
    J,
    K,
    U,
}

/// The effect of one non-derivative transaction: all three fields or none.
#[derive(Clone, Copy, PartialEq, Eq, Structural, Debug)]
pub struct TransactionData {
    pub amount: i32,
    pub acqired: bool,
    pub price: Decimal,
}

/// Whether the security is held directly or through an intermediary; the
/// nature of an indirect holding is mandatory.
#[derive(Clone, PartialEq, Eq, Debug)]
pub enum Ownership {
    Direct,
    Indirect(String),
}

/// A signed derivative security count.
#[derive(Clone, Copy, PartialEq, Eq, Structural, Debug)]
pub enum DerivativeNumber {
    Acquired(i32),
    Disposed(i32),
}

/// The security underlying a derivative transaction.
#[derive(Clone, PartialEq, Eq, Debug)]
pub struct Underlying {
    pub title: String,
    pub shares: Decimal,
}

/// One transaction in the issuer's common security.
#[derive(Clone, PartialEq, Eq, Debug)]
pub struct NonDerivative {
    pub title: String,
    pub date: Option<String>,
    pub tx_codes: Option<Vec<TransactionCode>>,
    pub tx_data: Option<TransactionData>,
    pub owned: Decimal,
    pub ownership: Ownership,
}

/// One transaction in a derivative instrument over the issuer's security.
#[derive(Clone, PartialEq, Eq, Debug)]
pub struct Derivative {
    pub title: String,
    pub date: Option<String>,
    pub tx_codes: Option<Vec<TransactionCode>>,
    pub count: Option<DerivativeNumber>,
    pub underlying: Option<Underlying>,
    pub price: Option<Decimal>,
    pub owned: Decimal,
    pub ownership: Ownership,
}

/// One decoded disclosure document.
#[derive(Clone, PartialEq, Eq, Debug)]
pub struct File4 {
    pub id: String,
    pub file_name: String,
    pub reporters: Vec<Reporter>,
    pub issuer: Issuer,
    pub non_derivative: Vec<NonDerivative>,
    pub derivative: Vec<Derivative>,
}

/// Why a document failed to decode. Every failure is terminal for that one
/// document; the decoder never returns a partial record.
#[derive(Clone, PartialEq, Eq, Debug)]
pub enum DecodeError {
    /// A piece of the submission wrapper is missing; names which one.
    EnvelopeError(String),
    /// The embedded payload is not well-formed XML.
    MalformedXml,
    /// A required element or its text is absent; names the path.
    MissingField(String),
    /// A required numeric leaf did not parse; names the field.
    InvalidNumber(String),
}

pub ghost struct RelationsView {
    pub relations: Seq<Relation>,
    pub title: Option<Seq<char>>,
}

pub ghost struct ReporterView {
    pub name: Seq<char>,
    pub cik: Seq<char>,
    pub relation: RelationsView,
}

pub ghost struct IssuerView {
    pub name: Seq<char>,
    pub cik: Seq<char>,
    pub symbol: Seq<char>,
}

pub ghost enum OwnershipView {
    Direct,
    Indirect(Seq<char>),
}

pub ghost struct UnderlyingView {
    pub title: Seq<char>,
    pub shares: Decimal,
}

pub ghost struct NonDerivativeView {
    pub title: Seq<char>,
    pub date: Option<Seq<char>>,
    pub tx_codes: Option<Seq<TransactionCode>>,
    pub tx_data: Option<TransactionData>,
    pub owned: Decimal,
    pub ownership: OwnershipView,
}

pub ghost struct DerivativeView {
    pub title: Seq<char>,
    pub date: Option<Seq<char>>,
    pub tx_codes: Option<Seq<TransactionCode>>,
    pub count: Option<DerivativeNumber>,
    pub underlying: Option<UnderlyingView>,
    pub price: Option<Decimal>,
    pub owned: Decimal,
    pub ownership: OwnershipView,
}

pub ghost struct File4View {
    pub id: Seq<char>,
    pub file_name: Seq<char>,
    pub reporters: Seq<ReporterView>,
    pub issuer: IssuerView,
    pub non_derivative: Seq<NonDerivativeView>,
    pub derivative: Seq<DerivativeView>,
}

pub ghost enum DecodeErrorView {
    EnvelopeError(Seq<char>),
    MalformedXml,
    MissingField(Seq<char>),
    InvalidNumber(Seq<char>),
}

pub open spec fn view_of_opt_string(t: Option<String>) -> Option<Seq<char>> {
    match t {
        Some(t) => Some(t@),
        None => None,
    }
}

impl View for Relations {
    type V = RelationsView;

    open spec fn view(&self) -> RelationsView {
        RelationsView { relations: self.relations@, title: view_of_opt_string(self.title) }
    }
}

impl View for Reporter {
    type V = ReporterView;

    open spec fn view(&self) -> ReporterView {
        ReporterView { name: self.name@, cik: self.cik@, relation: self.relation@ }
    }
}

impl View for Issuer {
    type V = IssuerView;

    open spec fn view(&self) -> IssuerView {
        IssuerView { name: self.name@, cik: self.cik@, symbol: self.symbol@ }
    }
}

impl View for Ownership {
    type V = OwnershipView;

    open spec fn view(&self) -> OwnershipView {
        match self {
            Ownership::Direct => OwnershipView::Direct,
            Ownership::Indirect(nature) => OwnershipView::Indirect(nature@),
        }
    }
}

impl View for Underlying {
    type V = UnderlyingView;

    open spec fn view(&self) -> UnderlyingView {
        UnderlyingView { title: self.title@, shares: self.shares }
    }
}

pub open spec fn view_of_opt_codes(t: Option<Vec<TransactionCode>>) -> Option<
    Seq<TransactionCode>,
> {
    match t {
        Some(v) => Some(v@),
        None => None,
    }
}

impl View for NonDerivative {
    type V = NonDerivativeView;

    open spec fn view(&self) -> NonDerivativeView {
        NonDerivativeView {
            title: self.title@,
            date: view_of_opt_string(self.date),
            tx_codes: view_of_opt_codes(self.tx_codes),
            tx_data: self.tx_data,
            owned: self.owned,
            ownership: self.ownership@,
        }
    }
}

pub open spec fn view_of_opt_underlying(t: Option<Underlying>) -> Option<UnderlyingView> {
    match t {
        Some(u) => Some(u@),
        None => None,
    }
}

impl View for Derivative {
    type V = DerivativeView;

    open spec fn view(&self) -> DerivativeView {
        DerivativeView {
            title: self.title@,
            date: view_of_opt_string(self.date),
            tx_codes: view_of_opt_codes(self.tx_codes),
            count: self.count,
            underlying: view_of_opt_underlying(self.underlying),
            price: self.price,
            owned: self.owned,
            ownership: self.ownership@,
        }
    }
}

impl View for File4 {
    type V = File4View;

    open spec fn view(&self) -> File4View {
        File4View {
            id: self.id@,
            file_name: self.file_name@,
            reporters: self.reporters@.map_values(|r: Reporter| r@),
            issuer: self.issuer@,
            non_derivative: self.non_derivative@.map_values(|r: NonDerivative| r@),
            derivative: self.derivative@.map_values(|r: Derivative| r@),
        }
    }
}

impl View for DecodeError {
    type V = DecodeErrorView;

    open spec fn view(&self) -> DecodeErrorView {
        match self {
            DecodeError::EnvelopeError(part) => DecodeErrorView::EnvelopeError(part@),
            DecodeError::MalformedXml => DecodeErrorView::MalformedXml,
            DecodeError::MissingField(path) => DecodeErrorView::MissingField(path@),
            DecodeError::InvalidNumber(field) => DecodeErrorView::InvalidNumber(field@),
        }
    }
}

} // verus!
