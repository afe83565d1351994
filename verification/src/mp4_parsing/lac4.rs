use vstd::prelude::*;
use vstd::utf8::{decode_utf8, valid_utf8};
use crate::bytes::{
    be_value, cstring_end, lemma_nul_index, nul_index, read_cstring, read_u16, read_u32,
    BoxBody, DecodeError, FourCC,
};

verus! {

/// AC-4 presentation label box, ETSI TS 103 190-2 Annex E.
#[derive(Debug, Clone, PartialEq, Eq)]
pub struct Lac4 {
    pub language_tag: String,
    pub labels: Vec<Ac4PresentationLabel>,
}

#[derive(Debug, Clone, PartialEq, Eq)]
pub struct Ac4PresentationLabel {
    pub id: u16,
    pub label: String,
}

/// Labels as plain values: each presentation id with its text.
pub open spec fn spec_label_view(labels: Seq<Ac4PresentationLabel>) -> Seq<(u16, Seq<char>)> {
    labels.map_values(|l: Ac4PresentationLabel| (l.id, l.label@))
}

/// Reads `n` labels from `pos`: each a 16-bit id and a null-terminated UTF-8 string.
/// Gives the labels and where reading stopped, or the first error.
pub open spec fn spec_labels(b: Seq<u8>, pos: int, n: nat) -> Result<
    (Seq<(u16, Seq<char>)>, int),
    DecodeError,
>
    decreases n,
{
    if n == 0 {
        Ok((Seq::empty(), pos))
    } else if pos + 2 > b.len() {
        Err(DecodeError::OutOfBounds)
    } else {
        let text = b.subrange(pos + 2, nul_index(b, pos + 2));
        if !valid_utf8(text) {
            Err(DecodeError::InvalidString)
        } else {
            let first = (be_value(b, pos, 2) as u16, decode_utf8(text));
            match spec_labels(b, cstring_end(b, pos + 2), (n - 1) as nat) {
                Ok((rest, end)) => Ok((seq![first] + rest, end)),
                Err(e) => Err(e),
            }
        }
    }
}

/// The labels of a body, read after the count and the language tag.
pub open spec fn spec_lac4_labels(b: Seq<u8>) -> Result<(Seq<(u16, Seq<char>)>, int), DecodeError> {
    spec_labels(b, cstring_end(b, 6), be_value(b, 4, 2))
}

/// `done` read so far, followed by what is still to be read.
pub open spec fn spec_after(
    done: Seq<(u16, Seq<char>)>,
    rest: Result<(Seq<(u16, Seq<char>)>, int), DecodeError>,
) -> Result<(Seq<(u16, Seq<char>)>, int), DecodeError> {
    match rest {
        Ok((s, e)) => Ok((done + s, e)),
        Err(e) => Err(e),
    }
}

impl BoxBody for Lac4 {
    open spec fn spec_kind() -> FourCC {
        FourCC(0x6c616334)
    }

    open spec fn spec_defined(b: Seq<u8>) -> bool {
        true
    }

    /// Version and flags, a 16-bit label count, a null-terminated language tag, then the
    /// labels.
    open spec fn spec_error(b: Seq<u8>) -> Option<DecodeError> {
        if b.len() < 6 {
            Some(DecodeError::OutOfBounds)
        } else if !valid_utf8(b.subrange(6, nul_index(b, 6))) {
            Some(DecodeError::InvalidString)
        } else {
            match spec_lac4_labels(b) {
                Ok(_) => None,
                Err(e) => Some(e),
            }
        }
    }

    open spec fn spec_read(b: Seq<u8>) -> nat {
        match spec_lac4_labels(b) {
            Ok((_, end)) => end as nat,
            Err(_) => 0,
        }
    }

    open spec fn spec_decodes_to(b: Seq<u8>, v: Lac4) -> bool {
        &&& v.language_tag@ == decode_utf8(b.subrange(6, nul_index(b, 6)))
        &&& spec_lac4_labels(b) matches Ok((labels, _)) && spec_label_view(v.labels@) == labels
    }

    fn kind() -> (k: FourCC) {
        FourCC(0x6c616334)
    }

    fn decode_body(data: &[u8]) -> (r: Result<(Lac4, usize), DecodeError>) {
        let _ = read_u32(data, 0)?;
        let count = read_u16(data, 4)?;
        let (language_tag, start) = read_cstring(data, 6)?;
        let mut labels: Vec<Ac4PresentationLabel> = Vec::new();
        let mut pos = start;
        let mut i: u16 = 0;
        proof {
            lemma_nul_index(data@, 6);
            assert(spec_label_view(labels@) =~= Seq::<(u16, Seq<char>)>::empty());
        }
        while i < count
            invariant
                i <= count,
                count == be_value(data@, 4, 2),
                data@.len() >= 6,
                valid_utf8(data@.subrange(6, nul_index(data@, 6))),
                pos <= data@.len(),
                spec_lac4_labels(data@) == spec_after(
                    spec_label_view(labels@),
                    spec_labels(data@, pos as int, (count - i) as nat),
                ),
            decreases count - i,
        {
            let id = match read_u16(data, pos) {
                Ok(id) => id,
                Err(e) => {
                    return Err(e);
                },
            };
            assert(pos + 2 <= data.len());
            proof {
                lemma_nul_index(data@, pos + 2);
            }
            let (label, next) = match read_cstring(data, pos + 2) {
                Ok(x) => x,
                Err(e) => {
                    return Err(e);
                },
            };
            let ghost before = spec_label_view(labels@);
            labels.push(Ac4PresentationLabel { id, label });
            proof {
                assert(spec_label_view(labels@) =~= before.push((id, label@)));
                let rest = spec_labels(data@, next as int, (count - i - 1) as nat);
                match rest {
                    Ok((s, e)) => {
                        assert(before + (seq![(id, label@)] + s) =~= before.push((id, label@))
                            + s);
                    },
                    Err(_) => {},
                }
            }
            pos = next;
            i = i + 1;
        }
        assert(spec_lac4_labels(data@) == Ok::<(Seq<(u16, Seq<char>)>, int), DecodeError>(
            (spec_label_view(labels@), pos as int),
        )) by {
            assert(spec_label_view(labels@) + Seq::<(u16, Seq<char>)>::empty() =~= spec_label_view(
                labels@,
            ));
        }
        Ok((Lac4 { language_tag, labels }, pos))
    }
}

} // verus!
