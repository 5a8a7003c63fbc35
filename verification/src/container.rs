//! Extraction of the raw Photoshop IRB metadata blocks from a JPEG
//! container: the payloads of the APP13 segments that start with the
//! Photoshop header. This stands where the external codec's metadata
//! side-channel would. The segment walk skips fill bytes, stops at
//! start-of-scan or end-of-image, and ends quietly at the first structural
//! break, handing on whatever was collected: validation belongs to the
//! resource parser, not here.

use vstd::prelude::*;
use vstd::slice::{slice_subrange, slice_to_vec};
use crate::parse::be_u16_at;

verus! {

/// The header an APP13 segment payload must start with to carry IRB data:
/// the ASCII bytes `Photoshop 3.0` and a terminating NUL.
pub open spec fn psir_header() -> Seq<u8> {
    seq![
        0x50u8,
        0x68u8,
        0x6fu8,
        0x74u8,
        0x6fu8,
        0x73u8,
        0x68u8,
        0x6fu8,
        0x70u8,
        0x20u8,
        0x33u8,
        0x2eu8,
        0x30u8,
        0x00u8,
    ]
}

/// Whether the marker stands alone, with no length field after it: a
/// temporary marker, a restart marker, or start-of-image.
pub open spec fn standalone_marker(m: u8) -> bool {
    m == 0x01 || (0xd0 <= m && m <= 0xd8)
}

/// The IRB blocks announced by the segment list of `data` from offset `i`
/// on: the payload, header stripped, of every APP13 segment whose payload
/// starts with the Photoshop header. Fill bytes before a marker are skipped;
/// the walk ends at start-of-scan, at end-of-image, or at the first
/// structural break.
pub open spec fn irb_blocks_from(data: Seq<u8>, i: int) -> Seq<Seq<u8>>
    decreases data.len() - i,
{
    if i < 0 || i + 2 > data.len() || data[i] != 0xff {
        seq![]
    } else if data[i + 1] == 0xff {
        irb_blocks_from(data, i + 1)
    } else if data[i + 1] == 0xd9 || data[i + 1] == 0xda {
        seq![]
    } else if standalone_marker(data[i + 1]) {
        irb_blocks_from(data, i + 2)
    } else if i + 4 > data.len() {
        seq![]
    } else {
        let seg_len = be_u16_at(data, i + 2);
        let end = i + 2 + seg_len;
        if seg_len < 2 || end > data.len() {
            seq![]
        } else {
            let payload = data.subrange(i + 4, end);
            let rest = irb_blocks_from(data, end);
            if data[i + 1] == 0xed && payload.len() >= 14 && payload.subrange(0, 14)
                == psir_header() {
                seq![payload.skip(14)] + rest
            } else {
                rest
            }
        }
    }
}

/// Whether the payload starts with the Photoshop header.
fn is_psir_payload(payload: &[u8]) -> (b: bool)
    ensures
        b == (payload@.len() >= 14 && payload@.subrange(0, 14) == psir_header()),
{
    if payload.len() < 14 {
        return false;
    }
    let b = payload[0] == 0x50 && payload[1] == 0x68 && payload[2] == 0x6f && payload[3] == 0x74
        && payload[4] == 0x6f && payload[5] == 0x73 && payload[6] == 0x68 && payload[7] == 0x6f
        && payload[8] == 0x70 && payload[9] == 0x20 && payload[10] == 0x33 && payload[11] == 0x2e
        && payload[12] == 0x30 && payload[13] == 0x00;
    proof {
        assert(psir_header().len() == 14);
        assert(psir_header()[0] == 0x50);
        assert(psir_header()[1] == 0x68);
        assert(psir_header()[2] == 0x6f);
        assert(psir_header()[3] == 0x74);
        assert(psir_header()[4] == 0x6f);
        assert(psir_header()[5] == 0x73);
        assert(psir_header()[6] == 0x68);
        assert(psir_header()[7] == 0x6f);
        assert(psir_header()[8] == 0x70);
        assert(psir_header()[9] == 0x20);
        assert(psir_header()[10] == 0x33);
        assert(psir_header()[11] == 0x2e);
        assert(psir_header()[12] == 0x30);
        assert(psir_header()[13] == 0x00);
        if b {
            assert(payload@.subrange(0, 14) =~= psir_header());
        }
    }
    b
}

/// Walks the JPEG container's segment list and returns the payload, header
/// stripped, of every APP13 Photoshop segment, in order: the raw IRB blocks,
/// exactly as [`irb_blocks_from`] describes.
pub fn photoshop_irb_blocks(data: &[u8]) -> (r: Vec<Vec<u8>>)
    ensures
        r@.map_values(|b: Vec<u8>| b@) == irb_blocks_from(data@, 0),
{
    let mut blocks: Vec<Vec<u8>> = Vec::new();
    let mut i: usize = 0;
    proof {
        assert(blocks@.map_values(|b: Vec<u8>| b@) + irb_blocks_from(data@, 0) =~= irb_blocks_from(
            data@,
            0,
        ));
    }
    loop
        invariant
            i <= data.len(),
            blocks@.map_values(|b: Vec<u8>| b@) + irb_blocks_from(data@, i as int)
                == irb_blocks_from(data@, 0),
        ensures
            blocks@.map_values(|b: Vec<u8>| b@) == irb_blocks_from(data@, 0),
        decreases data.len() - i,
    {
        let ghost acc0 = blocks@.map_values(|b: Vec<u8>| b@);
        if data.len() - i < 2 || data[i] != 0xff {
            proof {
                assert(acc0 + Seq::<Seq<u8>>::empty() =~= acc0);
            }
            break;
        }
        let m = data[i + 1];
        if m == 0xff {
            i = i + 1;
        } else if m == 0xd9 || m == 0xda {
            proof {
                assert(acc0 + Seq::<Seq<u8>>::empty() =~= acc0);
            }
            break;
        } else if m == 0x01 || (0xd0 <= m && m <= 0xd8) {
            i = i + 2;
        } else if data.len() - i < 4 {
            proof {
                assert(acc0 + Seq::<Seq<u8>>::empty() =~= acc0);
            }
            break;
        } else {
            let ghost i0 = i as int;
            let mut lenfield = slice_subrange(data, i + 2, i + 4);
            let seg_len = crate::parse::read_be_u16(&mut lenfield) as usize;
            proof {
                assert(seg_len as int == be_u16_at(data@, i0 + 2));
            }
            if seg_len < 2 || seg_len > data.len() - (i + 2) {
                proof {
                    assert(acc0 + Seq::<Seq<u8>>::empty() =~= acc0);
                }
                break;
            }
            let end = i + 2 + seg_len;
            let payload = slice_subrange(data, i + 4, end);
            let ghost here = if data@[i0 + 1] == 0xed && payload@.len() >= 14 && payload@.subrange(
                0,
                14,
            ) == psir_header() {
                seq![payload@.skip(14)]
            } else {
                Seq::<Seq<u8>>::empty()
            };
            if m == 0xed && is_psir_payload(payload) {
                let block = slice_to_vec(slice_subrange(payload, 14, payload.len()));
                proof {
                    assert(block@ =~= payload@.skip(14));
                }
                blocks.push(block);
            }
            i = end;
            proof {
                assert(blocks@.map_values(|b: Vec<u8>| b@) =~= acc0 + here);
                assert(irb_blocks_from(data@, i0) == here + irb_blocks_from(data@, i as int));
                assert((acc0 + here) + irb_blocks_from(data@, i as int) =~= acc0 + (here
                    + irb_blocks_from(data@, i as int)));
            }
        }
    }
    blocks
}

} // verus!
