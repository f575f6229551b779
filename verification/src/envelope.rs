//! Phase one of the decoder: pulling the accession number, the declared
//! payload file name and the embedded XML span out of the plaintext
//! submission wrapper. The wrapper holds, in order, anywhere in the text: an
//! accession-number declaration, a file-name declaration ending in `.xml`,
//! and a payload between an opening and a closing sentinel line.

use vstd::prelude::*;
use crate::model::{DecodeError, DecodeErrorView};
use crate::strutil::{find_from, find_str, lemma_find_from_found, match_at, matches_at};

verus! {

/// The three extracted envelope pieces.
pub struct Envelope {
    pub id: String,
    pub file_name: String,
    pub payload: String,
}

pub ghost struct EnvelopeView {
    pub id: Seq<char>,
    pub file_name: Seq<char>,
    pub payload: Seq<char>,
}

impl View for Envelope {
    type V = EnvelopeView;

    open spec fn view(&self) -> EnvelopeView {
        EnvelopeView { id: self.id@, file_name: self.file_name@, payload: self.payload@ }
    }
}

pub open spec fn acc_label() -> Seq<char> {
    "ACCESSION NUMBER:"@
}

pub open spec fn fname_label() -> Seq<char> {
    "<FILENAME>"@
}

pub open spec fn xml_open() -> Seq<char> {
    "<XML>\n"@
}

pub open spec fn xml_close() -> Seq<char> {
    "\n</XML>"@
}

pub open spec fn xml_ext() -> Seq<char> {
    ".xml"@
}

pub open spec fn part_accession() -> Seq<char> {
    "accession number"@
}

pub open spec fn part_file_name() -> Seq<char> {
    "file name"@
}

pub open spec fn part_xml() -> Seq<char> {
    "xml"@
}

pub open spec fn is_ws(c: char) -> bool {
    c == ' ' || c == '\t' || c == '\n' || c == '\r' || c == '\u{b}' || c == '\u{c}'
}

pub open spec fn is_acc_char(c: char) -> bool {
    ('a' <= c && c <= 'z') || ('A' <= c && c <= 'Z') || ('0' <= c && c <= '9') || c == '-'
}

pub open spec fn is_fname_char(c: char) -> bool {
    is_acc_char(c) || c == '_'
}

/// The end of the maximal run of whitespace starting at `i`.
pub open spec fn ws_end(s: Seq<char>, i: int) -> int
    recommends
        0 <= i,
    decreases s.len() - i,
        when i <= s.len()
{
    if i < 0 || i >= s.len() || !is_ws(s[i]) {
        i
    } else {
        ws_end(s, i + 1)
    }
}

/// The end of the maximal run of accession-number characters starting at `i`.
pub open spec fn acc_end(s: Seq<char>, i: int) -> int
    recommends
        0 <= i,
    decreases s.len() - i,
        when i <= s.len()
{
    if i < 0 || i >= s.len() || !is_acc_char(s[i]) {
        i
    } else {
        acc_end(s, i + 1)
    }
}

/// The end of the maximal run of file-name characters starting at `i`.
pub open spec fn fname_end(s: Seq<char>, i: int) -> int
    recommends
        0 <= i,
    decreases s.len() - i,
        when i <= s.len()
{
    if i < 0 || i >= s.len() || !is_fname_char(s[i]) {
        i
    } else {
        fname_end(s, i + 1)
    }
}

/// What envelope extraction yields on `raw`: the three pieces, or the first
/// piece that is missing. The accession token is the run of its characters
/// after the label and at least one whitespace character; the file name is a
/// run of name characters followed by `.xml`; the payload spans between the
/// sentinel lines.
pub open spec fn envelope_of(raw: Seq<char>) -> Result<EnvelopeView, DecodeErrorView> {
    match find_from(raw, acc_label(), 0) {
        None => Err(DecodeErrorView::EnvelopeError(part_accession())),
        Some(a) => {
            let j = a + acc_label().len();
            let k = ws_end(raw, j);
            if k == j {
                Err(DecodeErrorView::EnvelopeError(part_accession()))
            } else {
                let e = acc_end(raw, k);
                let id = raw.subrange(k, e);
                match find_from(raw, fname_label(), e) {
                    None => Err(DecodeErrorView::EnvelopeError(part_file_name())),
                    Some(f) => {
                        let g = f + fname_label().len();
                        let h = fname_end(raw, g);
                        if !match_at(raw, xml_ext(), h) {
                            Err(DecodeErrorView::EnvelopeError(part_file_name()))
                        } else {
                            let name = raw.subrange(g, h + xml_ext().len());
                            match find_from(raw, xml_open(), h + xml_ext().len()) {
                                None => Err(DecodeErrorView::EnvelopeError(part_xml())),
                                Some(x) => {
                                    let ps = x + xml_open().len();
                                    match find_from(raw, xml_close(), ps) {
                                        None => Err(DecodeErrorView::EnvelopeError(part_xml())),
                                        Some(q) => Ok(
                                            EnvelopeView {
                                                id,
                                                file_name: name,
                                                payload: raw.subrange(ps, q),
                                            },
                                        ),
                                    }
                                },
                            }
                        }
                    },
                }
            }
        },
    }
}

fn exec_ws_end(s: &str, i: usize) -> (r: usize)
    requires
        i <= s@.len(),
    ensures
        i <= r <= s@.len(),
        r as int == ws_end(s@, i as int),
{
    let n = s.unicode_len();
    let mut k: usize = i;
    while k < n
        invariant
            i <= k <= n == s@.len(),
            ws_end(s@, i as int) == ws_end(s@, k as int),
        decreases n - k,
    {
        let c = s.get_char(k);
        if !(c == ' ' || c == '\t' || c == '\n' || c == '\r' || c == '\u{b}' || c == '\u{c}') {
            return k;
        }
        k = k + 1;
    }
    k
}

fn exec_acc_end(s: &str, i: usize) -> (r: usize)
    requires
        i <= s@.len(),
    ensures
        i <= r <= s@.len(),
        r as int == acc_end(s@, i as int),
{
    let n = s.unicode_len();
    let mut k: usize = i;
    while k < n
        invariant
            i <= k <= n == s@.len(),
            acc_end(s@, i as int) == acc_end(s@, k as int),
        decreases n - k,
    {
        let c = s.get_char(k);
        if !(('a' <= c && c <= 'z') || ('A' <= c && c <= 'Z') || ('0' <= c && c <= '9') || c
            == '-') {
            return k;
        }
        k = k + 1;
    }
    k
}

fn exec_fname_end(s: &str, i: usize) -> (r: usize)
    requires
        i <= s@.len(),
    ensures
        i <= r <= s@.len(),
        r as int == fname_end(s@, i as int),
{
    let n = s.unicode_len();
    let mut k: usize = i;
    while k < n
        invariant
            i <= k <= n == s@.len(),
            fname_end(s@, i as int) == fname_end(s@, k as int),
        decreases n - k,
    {
        let c = s.get_char(k);
        if !(('a' <= c && c <= 'z') || ('A' <= c && c <= 'Z') || ('0' <= c && c <= '9') || c == '-'
            || c == '_') {
            return k;
        }
        k = k + 1;
    }
    k
}

/// Extracts the accession number, the declared file name and the embedded
/// payload from the submission wrapper, or says which piece is missing.
pub fn extract_envelope(raw: &str) -> (r: Result<Envelope, DecodeError>)
    ensures
        match r {
            Ok(env) => envelope_of(raw@) == Ok::<EnvelopeView, DecodeErrorView>(env@),
            Err(err) => envelope_of(raw@) == Err::<EnvelopeView, DecodeErrorView>(err@),
        },
{
    let n = raw.unicode_len();
    let acc_lbl = "ACCESSION NUMBER:";
    let a = match find_str(raw, acc_lbl, 0) {
        Some(a) => a,
        None => {
            return Err(DecodeError::EnvelopeError("accession number".to_owned()));
        },
    };
    proof {
        lemma_find_from_found(raw@, acc_label(), 0);
        reveal_strlit("ACCESSION NUMBER:");
    }
    let j = a + acc_lbl.unicode_len();
    let k = exec_ws_end(raw, j);
    if k == j {
        return Err(DecodeError::EnvelopeError("accession number".to_owned()));
    }
    let e = exec_acc_end(raw, k);
    let id = raw.substring_char(k, e).to_owned();
    let fname_lbl = "<FILENAME>";
    let f = match find_str(raw, fname_lbl, e) {
        Some(f) => f,
        None => {
            return Err(DecodeError::EnvelopeError("file name".to_owned()));
        },
    };
    proof {
        lemma_find_from_found(raw@, fname_label(), e as int);
        reveal_strlit("<FILENAME>");
    }
    let g = f + fname_lbl.unicode_len();
    let h = exec_fname_end(raw, g);
    if !matches_at(raw, ".xml", h) {
        return Err(DecodeError::EnvelopeError("file name".to_owned()));
    }
    proof {
        reveal_strlit(".xml");
    }
    let name = raw.substring_char(g, h + 4).to_owned();
    let open_lbl = "<XML>\n";
    let x = match find_str(raw, open_lbl, h + 4) {
        Some(x) => x,
        None => {
            return Err(DecodeError::EnvelopeError("xml".to_owned()));
        },
    };
    proof {
        lemma_find_from_found(raw@, xml_open(), h + 4);
        reveal_strlit("<XML>\n");
    }
    let ps = x + open_lbl.unicode_len();
    let q = match find_str(raw, "\n</XML>", ps) {
        Some(q) => q,
        None => {
            return Err(DecodeError::EnvelopeError("xml".to_owned()));
        },
    };
    proof {
        lemma_find_from_found(raw@, xml_close(), ps as int);
    }
    let payload = raw.substring_char(ps, q).to_owned();
    Ok(Envelope { id, file_name: name, payload })
}

} // verus!
