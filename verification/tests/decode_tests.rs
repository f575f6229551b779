use form4::model::{
    DecodeError, DerivativeNumber, File4, Ownership, Relation, TransactionCode, TransactionData,
    Underlying,
};
use form4::numbers::Decimal;

fn payload_basic() -> String {
    "<ownershipDocument><issuer><issuerCik>0000320193</issuerCik><issuerName>ACME CORP</issuerName><issuerTradingSymbol>ACME</issuerTradingSymbol></issuer><reportingOwner><reportingOwnerId><rptOwnerCik>0001112223</rptOwnerCik><rptOwnerName>DOE JANE</rptOwnerName></reportingOwnerId><reportingOwnerRelationship><isDirector>true</isDirector><isOfficer>false</isOfficer></reportingOwnerRelationship></reportingOwner><nonDerivativeTable><nonDerivativeTransaction><securityTitle><value>Common Stock</value></securityTitle><transactionDate><value>2024-01-02</value></transactionDate><transactionCoding><transactionCode>S</transactionCode></transactionCoding><transactionAmounts><transactionShares><value>100</value></transactionShares><transactionAcquiredDisposedCode><value>D</value></transactionAcquiredDisposedCode><transactionPricePerShare><value>12.50</value></transactionPricePerShare></transactionAmounts><postTransactionAmounts><sharesOwnedFollowingTransaction><value>900</value></sharesOwnedFollowingTransaction></postTransactionAmounts><ownershipNature><directOrIndirectOwnership><value>D</value></directOrIndirectOwnership></ownershipNature></nonDerivativeTransaction></nonDerivativeTable></ownershipDocument>"
    .to_string()
}

fn wrap(payload: &str) -> String {
    format!(
        "ACCESSION NUMBER: 0001234567-24-000001\n<FILENAME>doc1.xml</FILENAME>\n<XML>\n{}\n</XML>\n",
        payload
    )
}

#[test]
fn decode_basic_filing() {
    let raw = wrap(&payload_basic());
    let f = File4::new(raw).unwrap();
    assert_eq!(f.id, "0001234567-24-000001");
    assert_eq!(f.file_name, "doc1.xml");
    assert_eq!(f.reporters.len(), 1);
    assert_eq!(f.reporters[0].cik, "0001112223");
    assert_eq!(f.reporters[0].name, "DOE JANE");
    assert_eq!(f.reporters[0].relation.relations, vec![Relation::Director]);
    assert_eq!(f.reporters[0].relation.title, None);
    assert_eq!(f.issuer.symbol, "ACME");
    assert_eq!(f.issuer.name, "ACME CORP");
    assert_eq!(f.issuer.cik, "0000320193");
    assert_eq!(f.non_derivative.len(), 1);
    let nd = &f.non_derivative[0];
    assert_eq!(nd.title, "Common Stock");
    assert_eq!(nd.date.as_deref(), Some("2024-01-02"));
    assert_eq!(nd.tx_codes, Some(vec![TransactionCode::S]));
    assert_eq!(
        nd.tx_data,
        Some(TransactionData {
            amount: 100,
            acqired: false,
            price: Decimal { neg: false, mantissa: 1250, scale: 2 },
        })
    );
    assert_eq!(nd.owned, Decimal { neg: false, mantissa: 900, scale: 0 });
    assert_eq!(nd.ownership, Ownership::Direct);
    assert_eq!(f.derivative.len(), 0);
}

#[test]
fn decode_is_idempotent() {
    let raw = wrap(&payload_basic());
    let f1 = File4::new(raw.clone()).unwrap();
    let f2 = File4::new(raw).unwrap();
    assert_eq!(f1, f2);
}

#[test]
fn missing_accession_number() {
    let raw = "<FILENAME>doc1.xml</FILENAME>\n<XML>\n<a/>\n</XML>\n".to_string();
    assert_eq!(
        File4::new(raw),
        Err(DecodeError::EnvelopeError("accession number".to_string()))
    );
}

#[test]
fn missing_file_name() {
    let raw = "ACCESSION NUMBER: 0001\n<XML>\n<a/>\n</XML>\n".to_string();
    assert_eq!(
        File4::new(raw),
        Err(DecodeError::EnvelopeError("file name".to_string()))
    );
}

#[test]
fn missing_xml_block() {
    let raw = "ACCESSION NUMBER: 0001\n<FILENAME>doc1.xml</FILENAME>\nno payload".to_string();
    assert_eq!(File4::new(raw), Err(DecodeError::EnvelopeError("xml".to_string())));
}

#[test]
fn malformed_payload() {
    let raw = wrap("<a><b></a>");
    assert_eq!(File4::new(raw), Err(DecodeError::MalformedXml));
}

#[test]
fn missing_issuer_fails() {
    let payload = "<ownershipDocument><reportingOwner><reportingOwnerId><rptOwnerCik>1</rptOwnerCik><rptOwnerName>X</rptOwnerName></reportingOwnerId><reportingOwnerRelationship/></reportingOwner></ownershipDocument>";
    assert_eq!(
        File4::new(wrap(payload)),
        Err(DecodeError::MissingField("issuer".to_string()))
    );
}

#[test]
fn zero_reporters_fails() {
    let payload = "<ownershipDocument><issuer><issuerCik>1</issuerCik><issuerName>A</issuerName><issuerTradingSymbol>A</issuerTradingSymbol></issuer></ownershipDocument>";
    assert_eq!(
        File4::new(wrap(payload)),
        Err(DecodeError::MissingField("reportingOwner".to_string()))
    );
}

#[test]
fn indirect_ownership_needs_nature() {
    let payload = payload_basic().replace(
        "<directOrIndirectOwnership><value>D</value></directOrIndirectOwnership>",
        "<directOrIndirectOwnership><value>I</value></directOrIndirectOwnership>",
    );
    assert_eq!(
        File4::new(wrap(&payload)),
        Err(DecodeError::MissingField("natureOfOwnership".to_string()))
    );
}

#[test]
fn indirect_ownership_with_nature() {
    let payload = payload_basic().replace(
        "<directOrIndirectOwnership><value>D</value></directOrIndirectOwnership>",
        "<directOrIndirectOwnership><value>I</value></directOrIndirectOwnership><natureOfOwnership><value>By Trust</value></natureOfOwnership>",
    );
    let f = File4::new(wrap(&payload)).unwrap();
    assert_eq!(
        f.non_derivative[0].ownership,
        Ownership::Indirect("By Trust".to_string())
    );
}

#[test]
fn invalid_owned_number_fails() {
    let payload = payload_basic().replace(
        "<sharesOwnedFollowingTransaction><value>900</value></sharesOwnedFollowingTransaction>",
        "<sharesOwnedFollowingTransaction><value>lots</value></sharesOwnedFollowingTransaction>",
    );
    assert_eq!(
        File4::new(wrap(&payload)),
        Err(DecodeError::InvalidNumber("sharesOwnedFollowingTransaction".to_string()))
    );
}

#[test]
fn bad_code_string_discards_codes_only() {
    let payload = payload_basic().replace(
        "<transactionCoding><transactionCode>S</transactionCode></transactionCoding>",
        "<transactionCoding><transactionCode>S?</transactionCode></transactionCoding>",
    );
    let f = File4::new(wrap(&payload)).unwrap();
    assert_eq!(f.non_derivative[0].tx_codes, None);
}

#[test]
fn partial_effect_group_is_absent() {
    let payload = payload_basic().replace(
        "<transactionPricePerShare><value>12.50</value></transactionPricePerShare>",
        "",
    );
    let f = File4::new(wrap(&payload)).unwrap();
    assert_eq!(f.non_derivative[0].tx_data, None);
}

#[test]
fn decode_derivative_row() {
    let deriv = "<derivativeTable><derivativeTransaction><securityTitle><value>Stock Option</value></securityTitle><transactionAmounts><transactionShares><value>50</value></transactionShares><transactionAcquiredDisposedCode><value>A</value></transactionAcquiredDisposedCode><transactionPricePerShare><value>1.25</value></transactionPricePerShare></transactionAmounts><underlyingSecurity><underlyingSecurityTitle><value>Common Stock</value></underlyingSecurityTitle><underlyingSecurityShares><value>50</value></underlyingSecurityShares></underlyingSecurity><postTransactionAmounts><sharesOwnedFollowingTransaction><value>150</value></sharesOwnedFollowingTransaction></postTransactionAmounts><ownershipNature><directOrIndirectOwnership><value>I</value></directOrIndirectOwnership><natureOfOwnership><value>By Trust</value></natureOfOwnership></ownershipNature></derivativeTransaction></derivativeTable>";
    let payload = payload_basic().replace("</ownershipDocument>", &format!("{}</ownershipDocument>", deriv));
    let f = File4::new(wrap(&payload)).unwrap();
    assert_eq!(f.derivative.len(), 1);
    let d = &f.derivative[0];
    assert_eq!(d.title, "Stock Option");
    assert_eq!(d.count, Some(DerivativeNumber::Acquired(50)));
    assert_eq!(
        d.underlying,
        Some(Underlying {
            title: "Common Stock".to_string(),
            shares: Decimal { neg: false, mantissa: 50, scale: 0 },
        })
    );
    assert_eq!(d.price, Some(Decimal { neg: false, mantissa: 125, scale: 2 }));
    assert_eq!(d.owned, Decimal { neg: false, mantissa: 150, scale: 0 });
    assert_eq!(d.ownership, Ownership::Indirect("By Trust".to_string()));
}

#[test]
fn officer_title_kept_without_flag() {
    let payload = payload_basic().replace(
        "<isOfficer>false</isOfficer>",
        "<isOfficer>false</isOfficer><officerTitle>CFO</officerTitle>",
    );
    let f = File4::new(wrap(&payload)).unwrap();
    assert_eq!(f.reporters[0].relation.title.as_deref(), Some("CFO"));
    assert_eq!(f.reporters[0].relation.relations, vec![Relation::Director]);
}

#[test]
fn joint_filing_keeps_both_reporters_in_order() {
    let second = "<reportingOwner><reportingOwnerId><rptOwnerCik>0009998887</rptOwnerCik><rptOwnerName>ROE RICHARD</rptOwnerName></reportingOwnerId><reportingOwnerRelationship><isTenPercentOwner>true</isTenPercentOwner><isOther>true</isOther></reportingOwnerRelationship></reportingOwner>";
    let payload = payload_basic().replace(
        "<nonDerivativeTable>",
        &format!("{}<nonDerivativeTable>", second),
    );
    let f = File4::new(wrap(&payload)).unwrap();
    assert_eq!(f.reporters.len(), 2);
    assert_eq!(f.reporters[0].cik, "0001112223");
    assert_eq!(f.reporters[1].cik, "0009998887");
    assert_eq!(
        f.reporters[1].relation.relations,
        vec![Relation::Owner, Relation::Other]
    );
}

#[test]
fn absent_date_group_is_absent() {
    let payload = payload_basic().replace(
        "<transactionDate><value>2024-01-02</value></transactionDate>",
        "",
    );
    let f = File4::new(wrap(&payload)).unwrap();
    assert_eq!(f.non_derivative[0].date, None);
}

#[test]
fn reporter_without_cik_fails() {
    let payload = payload_basic().replace(
        "<rptOwnerCik>0001112223</rptOwnerCik>",
        "",
    );
    assert_eq!(
        File4::new(wrap(&payload)),
        Err(DecodeError::MissingField("rptOwnerCik".to_string()))
    );
}
