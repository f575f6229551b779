//! Phase two of the decoder: walking the parsed payload tree into a `File4`
//! record. The walk is schema-tolerant: every field is found by tag name
//! among children or descendants, never by position, and unknown elements
//! are ignored. Optional groups are all-or-nothing: a missing sub-field
//! collapses the whole group to absent.

use vstd::prelude::*;
use crate::codecs::codes_of;
use crate::envelope::{envelope_of, extract_envelope, EnvelopeView};
use crate::model::{
    DecodeError, DecodeErrorView, DerivativeNumber, File4, File4View, IssuerView, OwnershipView,
    Relation, RelationsView, ReporterView, TransactionData, Underlying, UnderlyingView,
};
use crate::model::{Derivative, DerivativeView, Issuer, NonDerivative, NonDerivativeView, Ownership,
    Relations, Reporter, TransactionCode};
use crate::numbers::{dec_of, i32_of, parse_decimal, parse_i32, Decimal};
use crate::strutil::str_eq;
use crate::xml::{
    child_of, descs, first_value_of, parse_xml, text_of_child, xml_doc, NodeView, XmlNode,
};

verus! {

/// The first nested value of the first child of `n` tagged `tag`.
pub open spec fn value_of_child(n: NodeView, tag: Seq<char>) -> Option<Seq<char>> {
    match child_of(n, tag) {
        Some(c) => first_value_of(c),
        None => None,
    }
}

/// The first descendant of `n` (itself included) tagged `tag`, if any.
pub open spec fn first_desc(n: NodeView, tag: Seq<char>) -> Option<NodeView> {
    if descs(n, tag).len() > 0 {
        Some(descs(n, tag)[0])
    } else {
        None
    }
}

/// The effect of a non-derivative transaction: amount, acquired flag and
/// price, all three or none.
pub open spec fn txdata_of(n: NodeView) -> Option<TransactionData> {
    match value_of_child(n, "transactionShares"@) {
        None => None,
        Some(sht) => match i32_of(sht) {
            None => None,
            Some(amount) => match value_of_child(n, "transactionAcquiredDisposedCode"@) {
                None => None,
                Some(adt) => match value_of_child(n, "transactionPricePerShare"@) {
                    None => None,
                    Some(prt) => match dec_of(prt) {
                        None => None,
                        Some(price) => Some(
                            TransactionData { amount, acqired: adt == "A"@, price },
                        ),
                    },
                },
            },
        },
    }
}

/// The signed derivative count: shares and direction, both or none.
pub open spec fn derivnum_of(n: NodeView) -> Option<DerivativeNumber> {
    match value_of_child(n, "transactionShares"@) {
        None => None,
        Some(sht) => match i32_of(sht) {
            None => None,
            Some(count) => match value_of_child(n, "transactionAcquiredDisposedCode"@) {
                None => None,
                Some(adt) => Some(
                    if adt == "A"@ {
                        DerivativeNumber::Acquired(count)
                    } else {
                        DerivativeNumber::Disposed(count)
                    },
                ),
            },
        },
    }
}

/// The underlying security: title and share count, both or none.
pub open spec fn underlying_of(n: NodeView) -> Option<UnderlyingView> {
    match value_of_child(n, "underlyingSecurityTitle"@) {
        None => None,
        Some(title) => match value_of_child(n, "underlyingSecurityShares"@) {
            None => None,
            Some(sht) => match dec_of(sht) {
                None => None,
                Some(shares) => Some(UnderlyingView { title, shares }),
            },
        },
    }
}

/// The ownership of a transaction row. The token `D` means direct whatever
/// else is present; any other token requires a non-empty nature text.
pub open spec fn ownership_of(row: NodeView) -> Result<OwnershipView, DecodeErrorView> {
    match child_of(row, "ownershipNature"@) {
        None => Err(DecodeErrorView::MissingField("ownershipNature"@)),
        Some(own) => match child_of(own, "directOrIndirectOwnership"@) {
            None => Err(DecodeErrorView::MissingField("directOrIndirectOwnership"@)),
            Some(doi) => match text_of_child(doi, "value"@) {
                None => Err(DecodeErrorView::MissingField("directOrIndirectOwnership value"@)),
                Some(tok) => if tok == "D"@ {
                    Ok(OwnershipView::Direct)
                } else {
                    match child_of(own, "natureOfOwnership"@) {
                        None => Err(DecodeErrorView::MissingField("natureOfOwnership"@)),
                        Some(nat_node) => match first_value_of(nat_node) {
                            None => Err(DecodeErrorView::MissingField("natureOfOwnership"@)),
                            Some(nature) => if nature.len() > 0 {
                                Ok(OwnershipView::Indirect(nature))
                            } else {
                                Err(DecodeErrorView::MissingField("natureOfOwnership"@))
                            },
                        },
                    }
                },
            },
        },
    }
}

/// The relation flags of a relationship element, each tested independently
/// against the literal truthy token, plus the optional officer title.
pub open spec fn relations_of(rel: NodeView) -> RelationsView {
    RelationsView {
        relations: (if text_of_child(rel, "isDirector"@) == Some("true"@) {
            seq![Relation::Director]
        } else {
            Seq::empty()
        }) + (if text_of_child(rel, "isOfficer"@) == Some("true"@) {
            seq![Relation::Officer]
        } else {
            Seq::empty()
        }) + (if text_of_child(rel, "isTenPercentOwner"@) == Some("true"@) {
            seq![Relation::Owner]
        } else {
            Seq::empty()
        }) + (if text_of_child(rel, "isOther"@) == Some("true"@) {
            seq![Relation::Other]
        } else {
            Seq::empty()
        }),
        title: text_of_child(rel, "officerTitle"@),
    }
}

/// One reporter: identity and relationship sub-trees are both required, as
/// are the CIK and name texts.
pub open spec fn reporter_of(n: NodeView) -> Result<ReporterView, DecodeErrorView> {
    match child_of(n, "reportingOwnerId"@) {
        None => Err(DecodeErrorView::MissingField("reportingOwnerId"@)),
        Some(rid) => match child_of(n, "reportingOwnerRelationship"@) {
            None => Err(DecodeErrorView::MissingField("reportingOwnerRelationship"@)),
            Some(rel) => match text_of_child(rid, "rptOwnerCik"@) {
                None => Err(DecodeErrorView::MissingField("rptOwnerCik"@)),
                Some(cik) => match text_of_child(rid, "rptOwnerName"@) {
                    None => Err(DecodeErrorView::MissingField("rptOwnerName"@)),
                    Some(name) => Ok(ReporterView { name, cik, relation: relations_of(rel) }),
                },
            },
        },
    }
}

/// The issuer: its element and all three text fields are required.
pub open spec fn issuer_of(root: NodeView) -> Result<IssuerView, DecodeErrorView> {
    match first_desc(root, "issuer"@) {
        None => Err(DecodeErrorView::MissingField("issuer"@)),
        Some(iss) => match text_of_child(iss, "issuerCik"@) {
            None => Err(DecodeErrorView::MissingField("issuerCik"@)),
            Some(cik) => match text_of_child(iss, "issuerName"@) {
                None => Err(DecodeErrorView::MissingField("issuerName"@)),
                Some(name) => match text_of_child(iss, "issuerTradingSymbol"@) {
                    None => Err(DecodeErrorView::MissingField("issuerTradingSymbol"@)),
                    Some(symbol) => Ok(IssuerView { name, cik, symbol }),
                },
            },
        },
    }
}

/// The required post-transaction owned-shares leaf of a row.
pub open spec fn owned_of(row: NodeView) -> Result<Decimal, DecodeErrorView> {
    match child_of(row, "postTransactionAmounts"@) {
        None => Err(DecodeErrorView::MissingField("postTransactionAmounts"@)),
        Some(post) => match child_of(post, "sharesOwnedFollowingTransaction"@) {
            None => Err(DecodeErrorView::MissingField("sharesOwnedFollowingTransaction"@)),
            Some(sh) => match text_of_child(sh, "value"@) {
                None => Err(
                    DecodeErrorView::MissingField("sharesOwnedFollowingTransaction value"@),
                ),
                Some(t) => match dec_of(t) {
                    None => Err(
                        DecodeErrorView::InvalidNumber("sharesOwnedFollowingTransaction"@),
                    ),
                    Some(d) => Ok(d),
                },
            },
        },
    }
}

/// The transaction-code string of a row, decoded; absent when the coding
/// group, the code element or any of its characters is missing or unknown.
pub open spec fn codes_of_row(row: NodeView) -> Option<Seq<TransactionCode>> {
    match child_of(row, "transactionCoding"@) {
        Some(coding) => match text_of_child(coding, "transactionCode"@) {
            Some(t) => codes_of(t),
            None => None,
        },
        None => None,
    }
}

/// The optional transaction date of a row: entirely absent when the date
/// group is absent.
pub open spec fn date_of_row(row: NodeView) -> Option<Seq<char>> {
    match child_of(row, "transactionDate"@) {
        Some(d) => first_value_of(d),
        None => None,
    }
}

/// One non-derivative row.
pub open spec fn nonderiv_of(row: NodeView) -> Result<NonDerivativeView, DecodeErrorView> {
    match child_of(row, "securityTitle"@) {
        None => Err(DecodeErrorView::MissingField("securityTitle"@)),
        Some(st) => match first_value_of(st) {
            None => Err(DecodeErrorView::MissingField("securityTitle"@)),
            Some(title) => match owned_of(row) {
                Err(e) => Err(e),
                Ok(owned) => match ownership_of(row) {
                    Err(e) => Err(e),
                    Ok(ownership) => Ok(
                        NonDerivativeView {
                            title,
                            date: date_of_row(row),
                            tx_codes: codes_of_row(row),
                            tx_data: match child_of(row, "transactionAmounts"@) {
                                Some(am) => txdata_of(am),
                                None => None,
                            },
                            owned,
                            ownership,
                        },
                    ),
                },
            },
        },
    }
}

/// One derivative row.
pub open spec fn deriv_of(row: NodeView) -> Result<DerivativeView, DecodeErrorView> {
    match child_of(row, "securityTitle"@) {
        None => Err(DecodeErrorView::MissingField("securityTitle"@)),
        Some(st) => match first_value_of(st) {
            None => Err(DecodeErrorView::MissingField("securityTitle"@)),
            Some(title) => match owned_of(row) {
                Err(e) => Err(e),
                Ok(owned) => match ownership_of(row) {
                    Err(e) => Err(e),
                    Ok(ownership) => Ok(
                        DerivativeView {
                            title,
                            date: date_of_row(row),
                            tx_codes: codes_of_row(row),
                            count: match child_of(row, "transactionAmounts"@) {
                                Some(am) => derivnum_of(am),
                                None => None,
                            },
                            underlying: match child_of(row, "underlyingSecurity"@) {
                                Some(u) => underlying_of(u),
                                None => None,
                            },
                            price: match child_of(row, "transactionAmounts"@) {
                                Some(am) => match value_of_child(
                                    am,
                                    "transactionPricePerShare"@,
                                ) {
                                    Some(t) => dec_of(t),
                                    None => None,
                                },
                                None => None,
                            },
                            owned,
                            ownership,
                        },
                    ),
                },
            },
        },
    }
}

/// The rows of the first table tagged `tag`: its element children, or
/// nothing when the table is absent.
pub open spec fn rows_of_table(root: NodeView, tag: Seq<char>) -> Seq<NodeView> {
    match first_desc(root, tag) {
        Some(t) => t.children,
        None => Seq::empty(),
    }
}

/// All reporters of `rows[i..]`, stopping at the first failure.
pub open spec fn reporters_of(rows: Seq<NodeView>, i: int) -> Result<
    Seq<ReporterView>,
    DecodeErrorView,
>
    recommends
        0 <= i,
    decreases rows.len() - i,
        when i <= rows.len()
{
    if i < 0 || i >= rows.len() {
        Ok(Seq::empty())
    } else {
        match reporter_of(rows[i]) {
            Err(e) => Err(e),
            Ok(v) => match reporters_of(rows, i + 1) {
                Err(e) => Err(e),
                Ok(rest) => Ok(seq![v] + rest),
            },
        }
    }
}

/// All non-derivative rows of `rows[i..]`, stopping at the first failure.
pub open spec fn nonderivs_of(rows: Seq<NodeView>, i: int) -> Result<
    Seq<NonDerivativeView>,
    DecodeErrorView,
>
    recommends
        0 <= i,
    decreases rows.len() - i,
        when i <= rows.len()
{
    if i < 0 || i >= rows.len() {
        Ok(Seq::empty())
    } else {
        match nonderiv_of(rows[i]) {
            Err(e) => Err(e),
            Ok(v) => match nonderivs_of(rows, i + 1) {
                Err(e) => Err(e),
                Ok(rest) => Ok(seq![v] + rest),
            },
        }
    }
}

/// All derivative rows of `rows[i..]`, stopping at the first failure.
pub open spec fn derivs_of(rows: Seq<NodeView>, i: int) -> Result<
    Seq<DerivativeView>,
    DecodeErrorView,
>
    recommends
        0 <= i,
    decreases rows.len() - i,
        when i <= rows.len()
{
    if i < 0 || i >= rows.len() {
        Ok(Seq::empty())
    } else {
        match deriv_of(rows[i]) {
            Err(e) => Err(e),
            Ok(v) => match derivs_of(rows, i + 1) {
                Err(e) => Err(e),
                Ok(rest) => Ok(seq![v] + rest),
            },
        }
    }
}

/// The whole structured parse of a payload tree.
pub open spec fn filing_of(root: NodeView, id: Seq<char>, file_name: Seq<char>) -> Result<
    File4View,
    DecodeErrorView,
> {
    match reporters_of(descs(root, "reportingOwner"@), 0) {
        Err(e) => Err(e),
        Ok(reps) => if reps.len() == 0 {
            Err(DecodeErrorView::MissingField("reportingOwner"@))
        } else {
            match issuer_of(root) {
                Err(e) => Err(e),
                Ok(iss) => match nonderivs_of(rows_of_table(root, "nonDerivativeTable"@), 0) {
                    Err(e) => Err(e),
                    Ok(nds) => match derivs_of(rows_of_table(root, "derivativeTable"@), 0) {
                        Err(e) => Err(e),
                        Ok(ds) => Ok(
                            File4View {
                                id,
                                file_name,
                                reporters: reps,
                                issuer: iss,
                                non_derivative: nds,
                                derivative: ds,
                            },
                        ),
                    },
                },
            }
        },
    }
}

/// What decoding a raw submission yields: envelope extraction, then the XML
/// parse, then the structured walk; the first failure wins.
pub open spec fn decode_spec(raw: Seq<char>) -> Result<File4View, DecodeErrorView> {
    match envelope_of(raw) {
        Err(e) => Err(e),
        Ok(env) => match xml_doc(env.payload) {
            None => Err(DecodeErrorView::MalformedXml),
            Some(root) => filing_of(root, env.id, env.file_name),
        },
    }
}

pub open spec fn rep_views(v: Seq<Reporter>) -> Seq<ReporterView> {
    v.map_values(|x: Reporter| x@)
}

pub open spec fn nd_views(v: Seq<NonDerivative>) -> Seq<NonDerivativeView> {
    v.map_values(|x: NonDerivative| x@)
}

pub open spec fn d_views(v: Seq<Derivative>) -> Seq<DerivativeView> {
    v.map_values(|x: Derivative| x@)
}

fn child_value<'a>(n: &'a XmlNode, tag: &str) -> (r: Option<&'a String>)
    ensures
        match r {
            Some(t) => value_of_child(n@, tag@) == Some(t@),
            None => value_of_child(n@, tag@) is None,
        },
{
    match n.child(tag) {
        Some(c) => c.first_value(),
        None => None,
    }
}

impl TransactionData {
    /// Reads the effect of a transaction from the children of its amounts
    /// group: all three fields or none.
    pub fn from_children(node: &XmlNode) -> (r: Option<TransactionData>)
        ensures
            r == txdata_of(node@),
    {
        let amount = match child_value(node, "transactionShares") {
            Some(t) => match parse_i32(t.as_str()) {
                Some(v) => v,
                None => {
                    return None;
                },
            },
            None => {
                return None;
            },
        };
        let acqired = match child_value(node, "transactionAcquiredDisposedCode") {
            Some(t) => str_eq(t.as_str(), "A"),
            None => {
                return None;
            },
        };
        let price = match child_value(node, "transactionPricePerShare") {
            Some(t) => match parse_decimal(t.as_str()) {
                Some(v) => v,
                None => {
                    return None;
                },
            },
            None => {
                return None;
            },
        };
        Some(TransactionData { amount, acqired, price })
    }
}

impl DerivativeNumber {
    /// Reads the signed derivative count from the children of an amounts
    /// group: shares and direction, both or none.
    pub fn from_children(node: &XmlNode) -> (r: Option<DerivativeNumber>)
        ensures
            r == derivnum_of(node@),
    {
        let count = match child_value(node, "transactionShares") {
            Some(t) => match parse_i32(t.as_str()) {
                Some(v) => v,
                None => {
                    return None;
                },
            },
            None => {
                return None;
            },
        };
        match child_value(node, "transactionAcquiredDisposedCode") {
            Some(t) => {
                if str_eq(t.as_str(), "A") {
                    Some(DerivativeNumber::Acquired(count))
                } else {
                    Some(DerivativeNumber::Disposed(count))
                }
            },
            None => None,
        }
    }
}

impl Underlying {
    /// Reads the underlying security from the children of its group: title
    /// and share count, both or none.
    pub fn from_children(node: &XmlNode) -> (r: Option<Underlying>)
        ensures
            match r {
                Some(u) => underlying_of(node@) == Some(u@),
                None => underlying_of(node@) is None,
            },
    {
        let title = match child_value(node, "underlyingSecurityTitle") {
            Some(t) => t.clone(),
            None => {
                return None;
            },
        };
        let shares = match child_value(node, "underlyingSecurityShares") {
            Some(t) => match parse_decimal(t.as_str()) {
                Some(v) => v,
                None => {
                    return None;
                },
            },
            None => {
                return None;
            },
        };
        Some(Underlying { title, shares })
    }
}

fn build_ownership(row: &XmlNode) -> (r: Result<Ownership, DecodeError>)
    ensures
        match r {
            Ok(o) => ownership_of(row@) == Ok::<OwnershipView, DecodeErrorView>(o@),
            Err(e) => ownership_of(row@) == Err::<OwnershipView, DecodeErrorView>(e@),
        },
{
    let own = match row.child("ownershipNature") {
        Some(n) => n,
        None => {
            return Err(DecodeError::MissingField("ownershipNature".to_owned()));
        },
    };
    let doi = match own.child("directOrIndirectOwnership") {
        Some(n) => n,
        None => {
            return Err(DecodeError::MissingField("directOrIndirectOwnership".to_owned()));
        },
    };
    let tok = match doi.child_text("value") {
        Some(t) => t,
        None => {
            return Err(DecodeError::MissingField("directOrIndirectOwnership value".to_owned()));
        },
    };
    if str_eq(tok.as_str(), "D") {
        return Ok(Ownership::Direct);
    }
    let nat_node = match own.child("natureOfOwnership") {
        Some(n) => n,
        None => {
            return Err(DecodeError::MissingField("natureOfOwnership".to_owned()));
        },
    };
    let nature = match nat_node.first_value() {
        Some(t) => t,
        None => {
            return Err(DecodeError::MissingField("natureOfOwnership".to_owned()));
        },
    };
    if nature.as_str().unicode_len() > 0 {
        Ok(Ownership::Indirect(nature.clone()))
    } else {
        Err(DecodeError::MissingField("natureOfOwnership".to_owned()))
    }
}

fn build_relations(rel: &XmlNode) -> (r: Relations)
    ensures
        r@ == relations_of(rel@),
{
    let mut relations: Vec<Relation> = Vec::new();
    match rel.child_text("isDirector") {
        Some(t) => {
            if str_eq(t.as_str(), "true") {
                relations.push(Relation::Director);
            }
        },
        None => {},
    }
    match rel.child_text("isOfficer") {
        Some(t) => {
            if str_eq(t.as_str(), "true") {
                relations.push(Relation::Officer);
            }
        },
        None => {},
    }
    match rel.child_text("isTenPercentOwner") {
        Some(t) => {
            if str_eq(t.as_str(), "true") {
                relations.push(Relation::Owner);
            }
        },
        None => {},
    }
    match rel.child_text("isOther") {
        Some(t) => {
            if str_eq(t.as_str(), "true") {
                relations.push(Relation::Other);
            }
        },
        None => {},
    }
    let title = match rel.child_text("officerTitle") {
        Some(t) => Some(t.clone()),
        None => None,
    };
    let r = Relations { relations, title };
    proof {
        assert(r@.relations =~= relations_of(rel@).relations);
    }
    r
}

fn build_reporter(n: &XmlNode) -> (r: Result<Reporter, DecodeError>)
    ensures
        match r {
            Ok(rep) => reporter_of(n@) == Ok::<ReporterView, DecodeErrorView>(rep@),
            Err(e) => reporter_of(n@) == Err::<ReporterView, DecodeErrorView>(e@),
        },
{
    let rid = match n.child("reportingOwnerId") {
        Some(c) => c,
        None => {
            return Err(DecodeError::MissingField("reportingOwnerId".to_owned()));
        },
    };
    let rel = match n.child("reportingOwnerRelationship") {
        Some(c) => c,
        None => {
            return Err(DecodeError::MissingField("reportingOwnerRelationship".to_owned()));
        },
    };
    let cik = match rid.child_text("rptOwnerCik") {
        Some(t) => t.clone(),
        None => {
            return Err(DecodeError::MissingField("rptOwnerCik".to_owned()));
        },
    };
    let name = match rid.child_text("rptOwnerName") {
        Some(t) => t.clone(),
        None => {
            return Err(DecodeError::MissingField("rptOwnerName".to_owned()));
        },
    };
    let relation = build_relations(rel);
    Ok(Reporter { name, cik, relation })
}

fn build_issuer(root: &XmlNode) -> (r: Result<Issuer, DecodeError>)
    ensures
        match r {
            Ok(iss) => issuer_of(root@) == Ok::<IssuerView, DecodeErrorView>(iss@),
            Err(e) => issuer_of(root@) == Err::<IssuerView, DecodeErrorView>(e@),
        },
{
    let iss = match root.find_descendant("issuer") {
        Some(n) => n,
        None => {
            return Err(DecodeError::MissingField("issuer".to_owned()));
        },
    };
    let cik = match iss.child_text("issuerCik") {
        Some(t) => t.clone(),
        None => {
            return Err(DecodeError::MissingField("issuerCik".to_owned()));
        },
    };
    let name = match iss.child_text("issuerName") {
        Some(t) => t.clone(),
        None => {
            return Err(DecodeError::MissingField("issuerName".to_owned()));
        },
    };
    let symbol = match iss.child_text("issuerTradingSymbol") {
        Some(t) => t.clone(),
        None => {
            return Err(DecodeError::MissingField("issuerTradingSymbol".to_owned()));
        },
    };
    Ok(Issuer { name, cik, symbol })
}

fn build_owned(row: &XmlNode) -> (r: Result<Decimal, DecodeError>)
    ensures
        match r {
            Ok(d) => owned_of(row@) == Ok::<Decimal, DecodeErrorView>(d),
            Err(e) => owned_of(row@) == Err::<Decimal, DecodeErrorView>(e@),
        },
{
    let post = match row.child("postTransactionAmounts") {
        Some(n) => n,
        None => {
            return Err(DecodeError::MissingField("postTransactionAmounts".to_owned()));
        },
    };
    let sh = match post.child("sharesOwnedFollowingTransaction") {
        Some(n) => n,
        None => {
            return Err(DecodeError::MissingField("sharesOwnedFollowingTransaction".to_owned()));
        },
    };
    let t = match sh.child_text("value") {
        Some(t) => t,
        None => {
            return Err(
                DecodeError::MissingField("sharesOwnedFollowingTransaction value".to_owned()),
            );
        },
    };
    match parse_decimal(t.as_str()) {
        Some(d) => Ok(d),
        None => Err(DecodeError::InvalidNumber("sharesOwnedFollowingTransaction".to_owned())),
    }
}

fn build_codes(row: &XmlNode) -> (r: Option<Vec<TransactionCode>>)
    ensures
        match r {
            Some(v) => codes_of_row(row@) == Some(v@),
            None => codes_of_row(row@) is None,
        },
{
    match row.child("transactionCoding") {
        Some(coding) => match coding.child_text("transactionCode") {
            Some(t) => TransactionCode::from_str(t.as_str()),
            None => None,
        },
        None => None,
    }
}

fn build_date(row: &XmlNode) -> (r: Option<String>)
    ensures
        crate::model::view_of_opt_string(r) == date_of_row(row@),
{
    match row.child("transactionDate") {
        Some(d) => match d.first_value() {
            Some(t) => Some(t.clone()),
            None => None,
        },
        None => None,
    }
}

fn build_nonderiv(row: &XmlNode) -> (r: Result<NonDerivative, DecodeError>)
    ensures
        match r {
            Ok(v) => nonderiv_of(row@) == Ok::<NonDerivativeView, DecodeErrorView>(v@),
            Err(e) => nonderiv_of(row@) == Err::<NonDerivativeView, DecodeErrorView>(e@),
        },
{
    let st = match row.child("securityTitle") {
        Some(n) => n,
        None => {
            return Err(DecodeError::MissingField("securityTitle".to_owned()));
        },
    };
    let title = match st.first_value() {
        Some(t) => t.clone(),
        None => {
            return Err(DecodeError::MissingField("securityTitle".to_owned()));
        },
    };
    let owned = match build_owned(row) {
        Ok(d) => d,
        Err(e) => {
            return Err(e);
        },
    };
    let ownership = match build_ownership(row) {
        Ok(o) => o,
        Err(e) => {
            return Err(e);
        },
    };
    let date = build_date(row);
    let tx_codes = build_codes(row);
    let tx_data = match row.child("transactionAmounts") {
        Some(am) => TransactionData::from_children(am),
        None => None,
    };
    Ok(NonDerivative { title, date, tx_codes, tx_data, owned, ownership })
}

fn build_deriv(row: &XmlNode) -> (r: Result<Derivative, DecodeError>)
    ensures
        match r {
            Ok(v) => deriv_of(row@) == Ok::<DerivativeView, DecodeErrorView>(v@),
            Err(e) => deriv_of(row@) == Err::<DerivativeView, DecodeErrorView>(e@),
        },
{
    let st = match row.child("securityTitle") {
        Some(n) => n,
        None => {
            return Err(DecodeError::MissingField("securityTitle".to_owned()));
        },
    };
    let title = match st.first_value() {
        Some(t) => t.clone(),
        None => {
            return Err(DecodeError::MissingField("securityTitle".to_owned()));
        },
    };
    let owned = match build_owned(row) {
        Ok(d) => d,
        Err(e) => {
            return Err(e);
        },
    };
    let ownership = match build_ownership(row) {
        Ok(o) => o,
        Err(e) => {
            return Err(e);
        },
    };
    let date = build_date(row);
    let tx_codes = build_codes(row);
    let count = match row.child("transactionAmounts") {
        Some(am) => DerivativeNumber::from_children(am),
        None => None,
    };
    let underlying = match row.child("underlyingSecurity") {
        Some(u) => Underlying::from_children(u),
        None => None,
    };
    let price = match row.child("transactionAmounts") {
        Some(am) => match child_value(am, "transactionPricePerShare") {
            Some(t) => parse_decimal(t.as_str()),
            None => None,
        },
        None => None,
    };
    Ok(Derivative { title, date, tx_codes, count, underlying, price, owned, ownership })
}

fn build_reporters(nodes: &Vec<&XmlNode>) -> (r: Result<Vec<Reporter>, DecodeError>)
    ensures
        match r {
            Ok(v) => reporters_of(crate::xml::views_of(nodes@), 0) == Ok::<
                Seq<ReporterView>,
                DecodeErrorView,
            >(rep_views(v@)),
            Err(e) => reporters_of(crate::xml::views_of(nodes@), 0) == Err::<
                Seq<ReporterView>,
                DecodeErrorView,
            >(e@),
        },
{
    let ghost rows = crate::xml::views_of(nodes@);
    let n = nodes.len();
    let mut out: Vec<Reporter> = Vec::new();
    proof {
        assert(rep_views(out@) =~= Seq::<ReporterView>::empty());
    }
    let mut i: usize = 0;
    while i < n
        invariant
            n == nodes@.len(),
            rows == crate::xml::views_of(nodes@),
            rows.len() == n,
            0 <= i <= n,
            reporters_of(rows, 0) == (match reporters_of(rows, i as int) {
                Ok(rest) => Ok::<Seq<ReporterView>, DecodeErrorView>(rep_views(out@) + rest),
                Err(e) => Err::<Seq<ReporterView>, DecodeErrorView>(e),
            }),
        decreases n - i,
    {
        assert(rows[i as int] == nodes@[i as int]@);
        match build_reporter(nodes[i]) {
            Ok(v) => {
                let ghost prev = out@;
                out.push(v);
                proof {
                    assert(rep_views(out@) =~= rep_views(prev).push(v@));
                    match reporters_of(rows, i + 1) {
                        Ok(rest) => {
                            assert(rep_views(prev) + (seq![v@] + rest) =~= rep_views(out@)
                                + rest);
                        },
                        Err(_) => {},
                    }
                }
            },
            Err(e) => {
                return Err(e);
            },
        }
        i = i + 1;
    }
    proof {
        assert(rep_views(out@) + Seq::<ReporterView>::empty() =~= rep_views(out@));
    }
    Ok(out)
}

fn build_nonderivs(table: &XmlNode) -> (r: Result<Vec<NonDerivative>, DecodeError>)
    ensures
        match r {
            Ok(v) => nonderivs_of(table@.children, 0) == Ok::<
                Seq<NonDerivativeView>,
                DecodeErrorView,
            >(nd_views(v@)),
            Err(e) => nonderivs_of(table@.children, 0) == Err::<
                Seq<NonDerivativeView>,
                DecodeErrorView,
            >(e@),
        },
{
    let ghost rows = table@.children;
    proof {
        crate::xml::lemma_children_views(table.children@, 0);
    }
    let n = table.children.len();
    let mut out: Vec<NonDerivative> = Vec::new();
    proof {
        assert(nd_views(out@) =~= Seq::<NonDerivativeView>::empty());
    }
    let mut i: usize = 0;
    while i < n
        invariant
            n == table.children@.len(),
            rows == table@.children,
            rows.len() == n,
            forall|j: int|
                0 <= j < n ==> rows[j] == crate::xml::node_view(#[trigger] table.children@[j]),
            0 <= i <= n,
            nonderivs_of(rows, 0) == (match nonderivs_of(rows, i as int) {
                Ok(rest) => Ok::<Seq<NonDerivativeView>, DecodeErrorView>(nd_views(out@) + rest),
                Err(e) => Err::<Seq<NonDerivativeView>, DecodeErrorView>(e),
            }),
        decreases n - i,
    {
        match build_nonderiv(&table.children[i]) {
            Ok(v) => {
                let ghost prev = out@;
                out.push(v);
                proof {
                    assert(nd_views(out@) =~= nd_views(prev).push(v@));
                    match nonderivs_of(rows, i + 1) {
                        Ok(rest) => {
                            assert(nd_views(prev) + (seq![v@] + rest) =~= nd_views(out@) + rest);
                        },
                        Err(_) => {},
                    }
                }
            },
            Err(e) => {
                return Err(e);
            },
        }
        i = i + 1;
    }
    proof {
        assert(nd_views(out@) + Seq::<NonDerivativeView>::empty() =~= nd_views(out@));
    }
    Ok(out)
}

fn build_derivs(table: &XmlNode) -> (r: Result<Vec<Derivative>, DecodeError>)
    ensures
        match r {
            Ok(v) => derivs_of(table@.children, 0) == Ok::<
                Seq<DerivativeView>,
                DecodeErrorView,
            >(d_views(v@)),
            Err(e) => derivs_of(table@.children, 0) == Err::<
                Seq<DerivativeView>,
                DecodeErrorView,
            >(e@),
        },
{
    let ghost rows = table@.children;
    proof {
        crate::xml::lemma_children_views(table.children@, 0);
    }
    let n = table.children.len();
    let mut out: Vec<Derivative> = Vec::new();
    proof {
        assert(d_views(out@) =~= Seq::<DerivativeView>::empty());
    }
    let mut i: usize = 0;
    while i < n
        invariant
            n == table.children@.len(),
            rows == table@.children,
            rows.len() == n,
            forall|j: int|
                0 <= j < n ==> rows[j] == crate::xml::node_view(#[trigger] table.children@[j]),
            0 <= i <= n,
            derivs_of(rows, 0) == (match derivs_of(rows, i as int) {
                Ok(rest) => Ok::<Seq<DerivativeView>, DecodeErrorView>(d_views(out@) + rest),
                Err(e) => Err::<Seq<DerivativeView>, DecodeErrorView>(e),
            }),
        decreases n - i,
    {
        match build_deriv(&table.children[i]) {
            Ok(v) => {
                let ghost prev = out@;
                out.push(v);
                proof {
                    assert(d_views(out@) =~= d_views(prev).push(v@));
                    match derivs_of(rows, i + 1) {
                        Ok(rest) => {
                            assert(d_views(prev) + (seq![v@] + rest) =~= d_views(out@) + rest);
                        },
                        Err(_) => {},
                    }
                }
            },
            Err(e) => {
                return Err(e);
            },
        }
        i = i + 1;
    }
    proof {
        assert(d_views(out@) + Seq::<DerivativeView>::empty() =~= d_views(out@));
    }
    Ok(out)
}

impl File4 {
    /// Decodes one raw submission: envelope extraction, XML parse, then the
    /// structured walk. Pure in its input: the result is a function of the
    /// text alone, and a returned record always carries at least one
    /// reporter.
    pub fn new(data: String) -> (r: Result<File4, DecodeError>)
        ensures
            match r {
                Ok(f) => decode_spec(data@) == Ok::<File4View, DecodeErrorView>(f@)
                    && f.reporters@.len() > 0,
                Err(e) => decode_spec(data@) == Err::<File4View, DecodeErrorView>(e@),
            },
    {
        let env = match extract_envelope(data.as_str()) {
            Ok(env) => env,
            Err(e) => {
                return Err(e);
            },
        };
        let root = match parse_xml(env.payload.as_str()) {
            Some(t) => t,
            None => {
                return Err(DecodeError::MalformedXml);
            },
        };
        let rep_nodes = root.descendants("reportingOwner");
        let reporters = match build_reporters(&rep_nodes) {
            Ok(v) => v,
            Err(e) => {
                return Err(e);
            },
        };
        if reporters.len() == 0 {
            return Err(DecodeError::MissingField("reportingOwner".to_owned()));
        }
        let issuer = match build_issuer(&root) {
            Ok(v) => v,
            Err(e) => {
                return Err(e);
            },
        };
        let non_derivative = match root.find_descendant("nonDerivativeTable") {
            Some(t) => {
                match build_nonderivs(t) {
                    Ok(v) => v,
                    Err(e) => {
                        return Err(e);
                    },
                }
            },
            None => {
                proof {
                    assert(nd_views(Seq::<NonDerivative>::empty()) =~= Seq::<
                        NonDerivativeView,
                    >::empty());
                }
                Vec::new()
            },
        };
        let derivative = match root.find_descendant("derivativeTable") {
            Some(t) => {
                match build_derivs(t) {
                    Ok(v) => v,
                    Err(e) => {
                        return Err(e);
                    },
                }
            },
            None => {
                proof {
                    assert(d_views(Seq::<Derivative>::empty()) =~= Seq::<DerivativeView>::empty());
                }
                Vec::new()
            },
        };
        let f = File4 {
            id: env.id,
            file_name: env.file_name,
            reporters,
            issuer,
            non_derivative,
            derivative,
        };
        proof {
            assert(f@.reporters =~= rep_views(f.reporters@));
            assert(f@.non_derivative =~= nd_views(f.non_derivative@));
            assert(f@.derivative =~= d_views(f.derivative@));
        }
        Ok(f)
    }
}

/// The ownership token of a row: the value text of its direct-or-indirect
/// element, when the path to it exists.
pub open spec fn ownership_token(row: NodeView) -> Option<Seq<char>> {
    match child_of(row, "ownershipNature"@) {
        None => None,
        Some(own) => match child_of(own, "directOrIndirectOwnership"@) {
            None => None,
            Some(doi) => text_of_child(doi, "value"@),
        },
    }
}

/// A submission whose envelope lacks a piece decodes to exactly that
/// envelope error, which names the missing part; no record is returned.
pub proof fn lemma_envelope_failure(raw: Seq<char>)
    requires
        envelope_of(raw) is Err,
    ensures
        decode_spec(raw) == Err::<File4View, DecodeErrorView>(envelope_of(raw)->Err_0),
        envelope_of(raw)->Err_0 == DecodeErrorView::EnvelopeError(crate::envelope::part_accession())
            || envelope_of(raw)->Err_0 == DecodeErrorView::EnvelopeError(
            crate::envelope::part_file_name(),
        ) || envelope_of(raw)->Err_0 == DecodeErrorView::EnvelopeError(
            crate::envelope::part_xml(),
        ),
{
}

/// A missing accession-number declaration is the accession-number envelope
/// error.
pub proof fn lemma_missing_accession(raw: Seq<char>)
    requires
        crate::strutil::find_from(raw, crate::envelope::acc_label(), 0) is None,
    ensures
        decode_spec(raw) == Err::<File4View, DecodeErrorView>(
            DecodeErrorView::EnvelopeError(crate::envelope::part_accession()),
        ),
{
}

/// A well-formed envelope whose payload is not well-formed XML decodes to
/// the malformed-XML error.
pub proof fn lemma_malformed_payload(raw: Seq<char>)
    requires
        envelope_of(raw) is Ok,
        xml_doc(envelope_of(raw)->Ok_0.payload) is None,
    ensures
        decode_spec(raw) == Err::<File4View, DecodeErrorView>(DecodeErrorView::MalformedXml),
{
}

/// The ownership token `D` yields direct ownership whatever nature text may
/// accompany it; indirect ownership is only ever returned for another token
/// and with a non-empty nature.
pub proof fn lemma_ownership_kind(row: NodeView)
    ensures
        ownership_token(row) == Some("D"@) ==> ownership_of(row) == Ok::<
            OwnershipView,
            DecodeErrorView,
        >(OwnershipView::Direct),
        match ownership_of(row) {
            Ok(OwnershipView::Indirect(nature)) => nature.len() > 0 && ownership_token(row) is Some
                && ownership_token(row) != Some("D"@),
            _ => true,
        },
{
}

/// Decoding is a pure function of the raw text: two decodes of the same
/// text yield structurally identical results.
pub proof fn lemma_decode_idempotent(raw: Seq<char>, r1: Result<File4View, DecodeErrorView>, r2: Result<File4View, DecodeErrorView>)
    requires
        r1 == decode_spec(raw),
        r2 == decode_spec(raw),
    ensures
        r1 == r2,
{
}

/// A decoded record never carries zero reporters.
pub proof fn lemma_reporters_nonempty(raw: Seq<char>)
    requires
        decode_spec(raw) is Ok,
    ensures
        decode_spec(raw)->Ok_0.reporters.len() > 0,
{
}

} // verus!
