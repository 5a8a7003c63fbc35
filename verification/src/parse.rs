//! Parsers for the two nested binary metadata formats carried inside a JPEG:
//! the Photoshop Image Resource Block (IRB) stream, and the IPTC-IIM record
//! stream embedded in the resource identified by the bytes {0x04, 0x04}.

use vstd::prelude::*;
use vstd::slice::slice_subrange;

verus! {

/// Why a metadata block failed to parse.
#[derive(Clone, Copy, Debug, PartialEq, Eq, Structural)]
pub enum ParseError {
    /// A resource did not start with the `8BIM` signature.
    BadSignature,
    /// A read would have run past the end of the block.
    Underrun,
    /// An IPTC-IIM record did not start with the tag marker 0x1C.
    BadTagMarker,
    /// The extended (32-bit) IPTC-IIM length encoding is not supported.
    ExtendedLength,
    /// The stream declares a character set other than UTF-8.
    UnsupportedCharset,
}

/// The big-endian 16-bit value stored at offset `i`.
pub open spec fn be_u16_at(data: Seq<u8>, i: int) -> int {
    (data[i] as int) * 0x100 + (data[i + 1] as int)
}

/// The big-endian 32-bit value stored at offset `i`.
pub open spec fn be_u32_at(data: Seq<u8>, i: int) -> int {
    (data[i] as int) * 0x1000000 + (data[i + 1] as int) * 0x10000 + (data[i + 2] as int) * 0x100
        + (data[i + 3] as int)
}

/// What `String::from_utf8_lossy` decodes the given bytes to.
pub uninterp spec fn utf8_lossy_of(bytes: Seq<u8>) -> Seq<char>;

/// Relies on `String::from_utf8_lossy`: the result is a function of the bytes
/// alone — valid UTF-8 decodes unchanged, invalid sequences become U+FFFD.
#[verifier::external_body]
fn utf8_lossy(bytes: &[u8]) -> (r: String)
    ensures
        r@ == utf8_lossy_of(bytes@),
{
    String::from_utf8_lossy(bytes).into_owned()
}

/// The three-byte escape sequence (ESC % G) declaring UTF-8 in an IPTC-IIM
/// character-set designator record.
pub open spec fn charset_utf8() -> Seq<u8> {
    seq![0x1bu8, 0x25u8, 0x47u8]
}

/// The keywords held in the IPTC-IIM record stream `data` from offset `i` on,
/// or the first parse failure. Each record is: tag marker 0x1C, a record
/// number and data-set number byte, a big-endian 16-bit value length (high bit
/// clear), then the value. A {1,90} record must declare UTF-8; each {2,25}
/// record contributes its value, decoded lossily, as one keyword.
pub open spec fn iptc_keywords_from(data: Seq<u8>, i: int) -> Result<Seq<Seq<char>>, ParseError>
    decreases data.len() - i,
{
    if i >= data.len() {
        Ok(seq![])
    } else if data[i] != 0x1c {
        Err(ParseError::BadTagMarker)
    } else if data.len() - i < 5 {
        Err(ParseError::Underrun)
    } else if data[i + 3] >= 0x80 {
        Err(ParseError::ExtendedLength)
    } else {
        let vlen = be_u16_at(data, i + 3);
        if data.len() - (i + 5) < vlen {
            Err(ParseError::Underrun)
        } else {
            let value = data.subrange(i + 5, i + 5 + vlen);
            if data[i + 1] == 1 && data[i + 2] == 90 && value != charset_utf8() {
                Err(ParseError::UnsupportedCharset)
            } else {
                match iptc_keywords_from(data, i + 5 + vlen) {
                    Ok(rest) => if data[i + 1] == 2 && data[i + 2] == 25 {
                        Ok(seq![utf8_lossy_of(value)] + rest)
                    } else {
                        Ok(rest)
                    },
                    Err(e) => Err(e),
                }
            }
        }
    }
}

/// The keywords held in the whole IPTC-IIM record stream `data`.
pub open spec fn iptc_keywords(data: Seq<u8>) -> Result<Seq<Seq<char>>, ParseError> {
    iptc_keywords_from(data, 0)
}

/// The views of a vector of strings.
pub open spec fn strings_view(v: Seq<String>) -> Seq<Seq<char>> {
    v.map_values(|s: String| s@)
}

/// The four-byte signature that every resource in an IRB stream starts with:
/// the ASCII bytes `8BIM`.
pub open spec fn irb_signature() -> Seq<u8> {
    seq![0x38u8, 0x42u8, 0x49u8, 0x4du8]
}

/// How many bytes the name field of a resource occupies: the length byte, the
/// `n` name bytes, and one padding byte exactly when `n` is even — so the
/// field always ends on an even total.
pub open spec fn name_region_len(n: int) -> int {
    1 + n + if n % 2 == 0 {
        1int
    } else {
        0int
    }
}

/// How many bytes the data field of a resource occupies: `l` data bytes, and
/// one padding byte exactly when `l` is odd.
pub open spec fn data_region_len(l: int) -> int {
    l + if l % 2 == 1 {
        1int
    } else {
        0int
    }
}

/// The keywords held in the IRB stream `data` from offset `i` on, or the
/// first parse failure. Each resource is: the `8BIM` signature, a two-byte
/// identifier, a padded name field, a big-endian 32-bit data length, then the
/// padded data field. The data of every resource identified by {0x04, 0x04}
/// is parsed as IPTC-IIM and contributes its keywords; a failure inside it
/// fails the whole stream.
pub open spec fn irb_keywords_from(data: Seq<u8>, i: int) -> Result<Seq<Seq<char>>, ParseError>
    decreases data.len() - i,
{
    if i >= data.len() {
        Ok(seq![])
    } else if data.len() - i < 4 {
        Err(ParseError::Underrun)
    } else if data.subrange(i, i + 4) != irb_signature() {
        Err(ParseError::BadSignature)
    } else if data.len() - i < 7 {
        Err(ParseError::Underrun)
    } else {
        let after_name = i + 6 + name_region_len(data[i + 6] as int);
        if after_name + 4 > data.len() {
            Err(ParseError::Underrun)
        } else {
            let l = be_u32_at(data, after_name);
            let body = after_name + 4;
            if body + data_region_len(l) > data.len() {
                Err(ParseError::Underrun)
            } else {
                let here = if data[i + 4] == 0x04 && data[i + 5] == 0x04 {
                    iptc_keywords(data.subrange(body, body + l))
                } else {
                    Ok(seq![])
                };
                match here {
                    Err(e) => Err(e),
                    Ok(ks) => match irb_keywords_from(data, body + data_region_len(l)) {
                        Ok(rest) => Ok(ks + rest),
                        Err(e) => Err(e),
                    },
                }
            }
        }
    }
}

/// The keywords held in the whole IRB stream `data`.
pub open spec fn irb_keywords(data: Seq<u8>) -> Result<Seq<Seq<char>>, ParseError> {
    irb_keywords_from(data, 0)
}

/// `r` prefixed, on success, by the keywords `p` already collected.
pub open spec fn with_prefix(p: Seq<Seq<char>>, r: Result<Seq<Seq<char>>, ParseError>) -> Result<
    Seq<Seq<char>>,
    ParseError,
> {
    match r {
        Ok(ks) => Ok(p + ks),
        Err(e) => Err(e),
    }
}

/// Reads a big-endian 16-bit integer and advances the cursor past it.
pub fn read_be_u16(input: &mut &[u8]) -> (r: u16)
    requires
        old(input)@.len() >= 2,
    ensures
        r == be_u16_at(old(input)@, 0),
        final(input)@ == old(input)@.skip(2),
{
    let b0 = input[0];
    let b1 = input[1];
    let rest = slice_subrange(*input, 2, input.len());
    *input = rest;
    (b0 as u16) * 0x100 + (b1 as u16)
}

/// Reads a big-endian 32-bit integer and advances the cursor past it.
pub fn read_be_u32(input: &mut &[u8]) -> (r: u32)
    requires
        old(input)@.len() >= 4,
    ensures
        r == be_u32_at(old(input)@, 0),
        final(input)@ == old(input)@.skip(4),
{
    let b0 = input[0];
    let b1 = input[1];
    let b2 = input[2];
    let b3 = input[3];
    let rest = slice_subrange(*input, 4, input.len());
    *input = rest;
    (b0 as u32) * 0x1000000 + (b1 as u32) * 0x10000 + (b2 as u32) * 0x100 + (b3 as u32)
}

/// The padding rule in one line: whatever the name length, the name field
/// occupies an even number of bytes.
pub proof fn lemma_name_region_even(n: int)
    requires
        0 <= n,
    ensures
        name_region_len(n) % 2 == 0,
{
}

/// The data field likewise always occupies an even number of bytes.
pub proof fn lemma_data_region_even(l: int)
    requires
        0 <= l,
    ensures
        data_region_len(l) % 2 == 0,
{
}

/// Whether the resource walk from offset `i` on meets no resource identified
/// by {0x04, 0x04}. Mirrors the offsets of [`irb_keywords_from`]; it is only
/// meaningful where that walk succeeds.
pub open spec fn irb_iptc_free_from(data: Seq<u8>, i: int) -> bool
    decreases data.len() - i,
{
    if i >= data.len() || data.len() - i < 7 {
        true
    } else {
        let after_name = i + 6 + name_region_len(data[i + 6] as int);
        if after_name + 4 > data.len() {
            true
        } else {
            let body = after_name + 4;
            let next = body + data_region_len(be_u32_at(data, after_name));
            if next > data.len() {
                true
            } else {
                !(data[i + 4] == 0x04 && data[i + 5] == 0x04) && irb_iptc_free_from(data, next)
            }
        }
    }
}

/// A well-formed IRB stream that holds no resource identified by
/// {0x04, 0x04} yields an empty keyword list.
pub proof fn lemma_iptc_free_no_keywords(data: Seq<u8>, i: int)
    requires
        0 <= i,
        irb_keywords_from(data, i) is Ok,
        irb_iptc_free_from(data, i),
    ensures
        irb_keywords_from(data, i) == Ok::<Seq<Seq<char>>, ParseError>(Seq::<Seq<char>>::empty()),
    decreases data.len() - i,
{
    if i >= data.len() {
    } else {
        let after_name = i + 6 + name_region_len(data[i + 6] as int);
        let body = after_name + 4;
        let next = body + data_region_len(be_u32_at(data, after_name));
        lemma_iptc_free_no_keywords(data, next);
        assert(Seq::<Seq<char>>::empty() + Seq::<Seq<char>>::empty() =~= Seq::<
            Seq<char>,
        >::empty());
    }
}

/// A data-set length whose first byte has its high bit set fails the IPTC-IIM
/// parse with `ExtendedLength`: it is never read as a length.
pub proof fn lemma_extended_length_rejected(data: Seq<u8>, i: int)
    requires
        0 <= i,
        i + 5 <= data.len(),
        data[i] == 0x1c,
        data[i + 3] >= 0x80,
    ensures
        iptc_keywords_from(data, i) == Err::<Seq<Seq<char>>, ParseError>(
            ParseError::ExtendedLength,
        ),
{
}

/// A character-set designator record {1, 90} whose value is not the three
/// byte UTF-8 escape sequence fails the IPTC-IIM parse with
/// `UnsupportedCharset`.
pub proof fn lemma_bad_charset_rejected(data: Seq<u8>, i: int)
    requires
        0 <= i,
        i + 5 <= data.len(),
        data[i] == 0x1c,
        data[i + 1] == 1,
        data[i + 2] == 90,
        data[i + 3] < 0x80,
        i + 5 + be_u16_at(data, i + 3) <= data.len(),
        data.subrange(i + 5, i + 5 + be_u16_at(data, i + 3)) != charset_utf8(),
    ensures
        iptc_keywords_from(data, i) == Err::<Seq<Seq<char>>, ParseError>(
            ParseError::UnsupportedCharset,
        ),
{
}

/// The keywords of the blocks from position `i` on, joined in order. A block
/// that fails to parse contributes no keywords, by design: one malformed
/// resource block must not lose the thumbnail.
pub open spec fn blocks_keywords_from(blocks: Seq<Seq<u8>>, i: int) -> Seq<Seq<char>>
    decreases blocks.len() - i,
{
    if i >= blocks.len() {
        seq![]
    } else {
        (match irb_keywords(blocks[i]) {
            Ok(ks) => ks,
            Err(_) => seq![],
        }) + blocks_keywords_from(blocks, i + 1)
    }
}

/// The keywords of all the blocks, joined in order of occurrence.
pub open spec fn blocks_keywords(blocks: Seq<Seq<u8>>) -> Seq<Seq<char>> {
    blocks_keywords_from(blocks, 0)
}

/// Walks one IPTC-IIM record stream and collects every keyword, in order of
/// occurrence. Returns the first parse failure instead, exactly as
/// [`iptc_keywords`] describes.
pub fn parse_keywords_from_iptc_iim(data: &[u8]) -> (r: Result<Vec<String>, ParseError>)
    ensures
        (match r {
            Ok(ks) => iptc_keywords(data@) == Ok::<Seq<Seq<char>>, ParseError>(strings_view(ks@)),
            Err(e) => iptc_keywords(data@) == Err::<Seq<Seq<char>>, ParseError>(e),
        }),
{
    let mut keywords: Vec<String> = Vec::new();
    let mut index: usize = 0;
    while index < data.len()
        invariant
            index <= data.len(),
            with_prefix(strings_view(keywords@), iptc_keywords_from(data@, index as int))
                == iptc_keywords(data@),
        decreases data.len() - index,
    {
        let ghost acc0 = strings_view(keywords@);
        let ghost i0 = index as int;
        if data[index] != 0x1c {
            return Err(ParseError::BadTagMarker);
        }
        let rem = data.len() - index;
        if rem < 5 {
            return Err(ParseError::Underrun);
        }
        let rn = data[index + 1];
        let ds = data[index + 2];
        if data[index + 3] >= 0x80 {
            return Err(ParseError::ExtendedLength);
        }
        let mut lenfield = slice_subrange(data, index + 3, index + 5);
        let vlen = read_be_u16(&mut lenfield) as usize;
        proof {
            assert(vlen as int == be_u16_at(data@, i0 + 3));
        }
        if data.len() - (index + 5) < vlen {
            return Err(ParseError::Underrun);
        }
        let value = slice_subrange(data, index + 5, index + 5 + vlen);
        if rn == 1 && ds == 90 {
            let charset_ok = vlen == 3 && value[0] == 0x1b && value[1] == 0x25 && value[2]
                == 0x47;
            if !charset_ok {
                proof {
                    assert(value@ != charset_utf8()) by {
                        assert(charset_utf8().len() == 3);
                        assert(charset_utf8()[0] == 0x1b);
                        assert(charset_utf8()[1] == 0x25);
                        assert(charset_utf8()[2] == 0x47);
                    }
                }
                return Err(ParseError::UnsupportedCharset);
            }
            proof {
                assert(value@ =~= charset_utf8());
            }
        }
        let ghost kws = if rn == 2 && ds == 25 {
            seq![utf8_lossy_of(value@)]
        } else {
            Seq::<Seq<char>>::empty()
        };
        if rn == 2 && ds == 25 {
            let s = utf8_lossy(value);
            keywords.push(s);
        }
        index = index + 5 + vlen;
        proof {
            assert(strings_view(keywords@) =~= acc0 + kws);
            assert(iptc_keywords_from(data@, i0) == with_prefix(
                kws,
                iptc_keywords_from(data@, index as int),
            ));
            if iptc_keywords_from(data@, index as int) is Ok {
                let rest = iptc_keywords_from(data@, index as int)->Ok_0;
                assert((acc0 + kws) + rest =~= acc0 + (kws + rest));
            }
        }
    }
    proof {
        assert(strings_view(keywords@) + Seq::<Seq<char>>::empty() =~= strings_view(keywords@));
    }
    Ok(keywords)
}

/// Walks one IRB stream and collects, in order, the keywords of every
/// resource identified by {0x04, 0x04}. Returns the first parse failure
/// instead, exactly as [`irb_keywords`] describes.
#[verifier::rlimit(60)]
pub fn parse_keywords_from_photoshop_irb_data(data: &[u8]) -> (r: Result<Vec<String>, ParseError>)
    ensures
        (match r {
            Ok(ks) => irb_keywords(data@) == Ok::<Seq<Seq<char>>, ParseError>(strings_view(ks@)),
            Err(e) => irb_keywords(data@) == Err::<Seq<Seq<char>>, ParseError>(e),
        }),
{
    let mut keywords: Vec<String> = Vec::new();
    let mut index: usize = 0;
    while index < data.len()
        invariant
            index <= data.len(),
            with_prefix(strings_view(keywords@), irb_keywords_from(data@, index as int))
                == irb_keywords(data@),
        decreases data.len() - index,
    {
        let ghost acc0 = strings_view(keywords@);
        let ghost i0 = index as int;
        let rem = data.len() - index;
        if rem < 4 {
            return Err(ParseError::Underrun);
        }
        let sig_ok = data[index] == 0x38 && data[index + 1] == 0x42 && data[index + 2] == 0x49
            && data[index + 3] == 0x4d;
        if !sig_ok {
            proof {
                assert(data@.subrange(i0, i0 + 4) != irb_signature()) by {
                    assert(irb_signature().len() == 4);
                    assert(irb_signature()[0] == 0x38);
                    assert(irb_signature()[1] == 0x42);
                    assert(irb_signature()[2] == 0x49);
                    assert(irb_signature()[3] == 0x4d);
                }
            }
            return Err(ParseError::BadSignature);
        }
        proof {
            assert(data@.subrange(i0, i0 + 4) =~= irb_signature());
        }
        if rem < 7 {
            return Err(ParseError::Underrun);
        }
        let id0 = data[index + 4];
        let id1 = data[index + 5];
        let n = data[index + 6] as usize;
        let name_region: usize = 1 + n + if n % 2 == 0 {
            1
        } else {
            0
        };
        if rem - 6 < name_region + 4 {
            return Err(ParseError::Underrun);
        }
        let after_name = index + 6 + name_region;
        let mut lenfield = slice_subrange(data, after_name, after_name + 4);
        let l = read_be_u32(&mut lenfield);
        proof {
            assert(l as int == be_u32_at(data@, after_name as int));
        }
        let body = after_name + 4;
        let rem_body = data.len() - body;
        if l as usize > rem_body {
            return Err(ParseError::Underrun);
        }
        let pad: usize = if l % 2 == 1 {
            1
        } else {
            0
        };
        if rem_body - (l as usize) < pad {
            return Err(ParseError::Underrun);
        }
        let ghost sub_view = data@.subrange(body as int, body as int + l as int);
        let matched = id0 == 0x04 && id1 == 0x04;
        let ghost here: Result<Seq<Seq<char>>, ParseError> = if matched {
            iptc_keywords(sub_view)
        } else {
            Ok(Seq::<Seq<char>>::empty())
        };
        if matched {
            let sub = slice_subrange(data, body, body + l as usize);
            match parse_keywords_from_iptc_iim(sub) {
                Ok(mut ks) => {
                    proof {
                        assert(here == Ok::<Seq<Seq<char>>, ParseError>(strings_view(ks@)));
                    }
                    keywords.append(&mut ks);
                },
                Err(e) => {
                    proof {
                        assert(irb_keywords_from(data@, i0) == Err::<Seq<Seq<char>>, ParseError>(
                            e,
                        ));
                    }
                    return Err(e);
                },
            }
        }
        let ghost kws = here->Ok_0;
        index = body + l as usize + pad;
        proof {
            assert(strings_view(keywords@) =~= acc0 + kws);
            assert(irb_keywords_from(data@, i0) == with_prefix(
                kws,
                irb_keywords_from(data@, index as int),
            ));
            if irb_keywords_from(data@, index as int) is Ok {
                let rest = irb_keywords_from(data@, index as int)->Ok_0;
                assert((acc0 + kws) + rest =~= acc0 + (kws + rest));
            }
        }
    }
    proof {
        assert(strings_view(keywords@) + Seq::<Seq<char>>::empty() =~= strings_view(keywords@));
    }
    Ok(keywords)
}

/// Extracts the keywords of every resource block, in order. A block that
/// fails to parse is skipped and contributes none.
pub fn get_keywords(photoshop_irb: &[Vec<u8>]) -> (r: Vec<String>)
    ensures
        strings_view(r@) == blocks_keywords(photoshop_irb@.map_values(|b: Vec<u8>| b@)),
{
    let ghost bs = photoshop_irb@.map_values(|b: Vec<u8>| b@);
    let mut keywords: Vec<String> = Vec::new();
    let mut i: usize = 0;
    proof {
        assert(strings_view(keywords@) + blocks_keywords_from(bs, 0) =~= blocks_keywords(bs));
    }
    while i < photoshop_irb.len()
        invariant
            i <= photoshop_irb.len(),
            bs == photoshop_irb@.map_values(|b: Vec<u8>| b@),
            strings_view(keywords@) + blocks_keywords_from(bs, i as int) == blocks_keywords(bs),
        decreases photoshop_irb.len() - i,
    {
        let ghost acc0 = strings_view(keywords@);
        let ghost head = (match irb_keywords(bs[i as int]) {
            Ok(ks) => ks,
            Err(_) => Seq::<Seq<char>>::empty(),
        });
        proof {
            assert(bs[i as int] == photoshop_irb@[i as int]@);
        }
        match parse_keywords_from_photoshop_irb_data(photoshop_irb[i].as_slice()) {
            Ok(mut ks) => {
                proof {
                    assert(head == strings_view(ks@));
                }
                keywords.append(&mut ks);
            },
            Err(_) => {},
        }
        i = i + 1;
        proof {
            assert(strings_view(keywords@) =~= acc0 + head);
            assert((acc0 + head) + blocks_keywords_from(bs, i as int) =~= acc0 + (head
                + blocks_keywords_from(bs, i as int)));
        }
    }
    proof {
        assert(strings_view(keywords@) + blocks_keywords_from(bs, i as int) =~= strings_view(
            keywords@,
        ));
    }
    keywords
}

} // verus!
