use vstd::prelude::*;

use crate::array::{opt_view, Buffer, FFI_ArrowArray};
use crate::datatypes::{DataType, TypeModel};
use crate::error::{ArrowError, Result};
use crate::format::{bit_width, bit_width_of};

verus! {

/// Bits per element of buffer `i` of an array of the modelled type `t`: a list, like a
/// string, has the bitmap, `w`-bit offsets (`w` = 32, or 64 for a large list) and bytes;
/// any other nested type has only the bitmap and is unsupported past it.
pub open spec fn type_bit_width(t: TypeModel, i: nat) -> Result<nat> {
    match t {
        TypeModel::Leaf(d) => bit_width_of(d, i),
        TypeModel::List(_) | TypeModel::LargeList(_) => if i == 0 {
            Ok(1)
        } else if i == 1 {
            Ok(if t is List { 32 } else { 64 })
        } else if i == 2 {
            Ok(8)
        } else {
            Err(ArrowError::CDataInterfaceProtocol)
        },
        _ => if i == 0 {
            Ok(1)
        } else {
            Err(ArrowError::UnsupportedType)
        },
    }
}

/// Bytes per offset of a variable-width modelled type.
pub open spec fn type_offset_bytes(t: TypeModel) -> Option<nat> {
    match type_bit_width(t, 2) {
        Ok(_) => Some(type_bit_width(t, 1)->Ok_0 / 8),
        Err(_) => None,
    }
}

pub open spec fn pow256(n: nat) -> nat
    decreases n,
{
    if n == 0 {
        1
    } else {
        256 * pow256((n - 1) as nat)
    }
}

/// The unsigned number that `s` spells, least significant byte first.
pub open spec fn le_value(s: Seq<u8>) -> nat
    decreases s.len(),
{
    if s.len() == 0 {
        0
    } else {
        s[0] as nat + 256 * le_value(s.drop_first())
    }
}

/// The offset at position `length` of an offset buffer of `w`-byte signed offsets,
/// when the buffer holds it and it is not negative.
pub open spec fn last_offset_of(offsets: Option<Seq<u8>>, length: nat, w: nat) -> Result<nat> {
    match offsets {
        None => Err(ArrowError::CDataInterfaceProtocol),
        Some(b) => if (length + 1) * w <= b.len() {
            let v = le_value(b.subrange((length * w) as int, ((length + 1) * w) as int));
            if v < pow256(w) / 2 {
                Ok(v)
            } else {
                Err(ArrowError::CDataInterfaceProtocol)
            }
        } else {
            Err(ArrowError::CDataInterfaceProtocol)
        },
    }
}

/// Bytes of buffer `i` of an array of type `t` and logical length `length`, whose offset
/// buffer (slot 1) holds `offsets`.
pub open spec fn buffer_len_of(t: TypeModel, length: nat, offsets: Option<Seq<u8>>, i: nat) -> Result<
    nat,
> {
    let r = if type_offset_bytes(t) is Some && i == 1 {
        Ok((length + 1) * type_offset_bytes(t)->0)
    } else if type_offset_bytes(t) is Some && i == 2 {
        last_offset_of(offsets, length, type_offset_bytes(t)->0)
    } else {
        match type_bit_width(t, i) {
            Ok(b) => Ok((length * b + 7) / 8),
            Err(e) => Err(e),
        }
    };
    match r {
        Ok(n) => if n <= usize::MAX {
            Ok(n)
        } else {
            Err(ArrowError::CDataInterfaceProtocol)
        },
        Err(e) => Err(e),
    }
}

/// The bytes of slot 1 of a record, where it has one.
pub open spec fn offsets_of(a: FFI_ArrowArray) -> Option<Seq<u8>> {
    if a.spec_buffers().len() > 1 {
        opt_view(a.spec_buffers()[1])
    } else {
        None
    }
}

/// The width table of a type depends on its model alone.
pub proof fn lemma_type_bit_width(d: DataType, i: nat)
    ensures
        type_bit_width(d.model(), i) == bit_width_of(d, i),
{
}

pub proof fn lemma_le_bound(s: Seq<u8>)
    ensures
        le_value(s) < pow256(s.len()),
    decreases s.len(),
{
    if s.len() > 0 {
        lemma_le_bound(s.drop_first());
        let a = s[0] as nat;
        let r = le_value(s.drop_first());
        let p = pow256(s.drop_first().len());
        assert(a + 256 * r < 256 * p) by (nonlinear_arith)
            requires
                a < 256,
                r < p,
        ;
    }
}

/// Reads the `w` bytes of `b` from `pos` as an unsigned number, least significant first.
fn read_le(b: &Buffer, pos: usize, w: usize) -> (r: u64)
    requires
        pos + w <= b@.len(),
        pos + w <= usize::MAX,
        w <= 8,
    ensures
        r == le_value(b@.subrange(pos as int, pos + w)),
{
    let mut acc: u128 = 0;
    let mut k: usize = w;
    proof {
        assert(b@.subrange(pos + w, pos + w).len() == 0);
        reveal_with_fuel(pow256, 9);
        assert(pow256(8) == 18446744073709551616nat);
    }
    while k > 0
        invariant
            k <= w,
            w <= 8,
            pos + w <= b@.len(),
            pos + w <= usize::MAX,
            acc == le_value(b@.subrange(pos + k, pos + w)),
            acc < pow256((w - k) as nat),
            pow256(8) == 18446744073709551616nat,
        decreases k,
    {
        let ghost before = b@.subrange(pos + k, pos + w);
        proof {
            lemma_pow256_mono((w - k) as nat, 7);
        }
        acc = acc * 256 + b.get(pos + k - 1) as u128;
        k = k - 1;
        proof {
            let now = b@.subrange(pos + k, pos + w);
            assert(now.drop_first() =~= before);
            lemma_le_bound(now);
        }
    }
    proof {
        lemma_pow256_mono(w as nat, 8);
    }
    acc as u64
}

pub proof fn lemma_pow256_mono(m: nat, n: nat)
    requires
        m <= n,
    ensures
        pow256(m) <= pow256(n),
    decreases n,
{
    if m < n {
        lemma_pow256_mono(m, (n - 1) as nat);
    }
}

/// Returns the number of bytes of buffer `i` (slot 0 being the validity bitmap) of an
/// array of type `data_type` described by `array`.
///
/// For a variable-width type, the offset buffer (slot 1) holds `length + 1` offsets and
/// the data buffer (slot 2) holds as many bytes as the last offset says; that offset is
/// read, least significant byte first, from slot 1. For the validity bitmap and for
/// fixed-width data, the length in bits is rounded up to whole bytes.
pub fn buffer_len(data_type: &DataType, array: &FFI_ArrowArray, i: usize) -> (r: Result<usize>)
    requires
        array.spec_length() >= 0,
    ensures
        match buffer_len_of(data_type.model(), array.spec_length() as nat, offsets_of(*array), i as nat) {
            Ok(n) => r == Ok::<usize, ArrowError>(n as usize),
            Err(e) => r == Err::<usize, ArrowError>(e),
        },
{
    proof {
        lemma_type_bit_width(*data_type, 1);
        lemma_type_bit_width(*data_type, 2);
        lemma_type_bit_width(*data_type, i as nat);
        reveal_with_fuel(pow256, 9);
    }
    let length = array.length() as u128;
    let variable = bit_width(data_type, 2).is_ok();
    let n: u128 = if variable && (i == 1 || i == 2) {
        let w: u128 = match bit_width(data_type, 1) {
            Ok(b) => (b / 8) as u128,
            Err(e) => {
                return Err(e);
            },
        };
        proof {
            assert(w <= 8);
            assert((length + 1) * w <= 9223372036854775808u128 * 8) by (nonlinear_arith)
                requires
                    length < 9223372036854775808u128,
                    w <= 8,
            ;
            assert(length * w + w == (length + 1) * w) by (nonlinear_arith);
        }
        if i == 1 {
            (length + 1) * w
        } else {
            if array.slots() <= 1 {
                return Err(ArrowError::CDataInterfaceProtocol);
            }
            match array.buffer(1) {
                None => {
                    return Err(ArrowError::CDataInterfaceProtocol);
                },
                Some(b) => {
                    let end = (length + 1) * w;
                    if end > b.len() as u128 {
                        return Err(ArrowError::CDataInterfaceProtocol);
                    }
                    let v = read_le(b, (length * w) as usize, w as usize) as u128;
                    let half: u128 = if w == 4 {
                        2147483648
                    } else {
                        9223372036854775808
                    };
                    if v >= half {
                        return Err(ArrowError::CDataInterfaceProtocol);
                    }
                    v
                },
            }
        }
    } else {
        match bit_width(data_type, i) {
            Ok(b) => (length * b as u128 + 7) / 8,
            Err(e) => {
                return Err(e);
            },
        }
    };
    if n > usize::MAX as u128 {
        return Err(ArrowError::CDataInterfaceProtocol);
    }
    Ok(n as usize)
}

/// Buffer-length law: for a variable-width type with `w`-byte offsets and an array of
/// `length` elements, the offset buffer holds `(length + 1) * w` bytes and the data buffer
/// as many bytes as the offset buffer's last element says (each when it fits a `usize`).
pub proof fn lemma_buffer_len_law(t: TypeModel, length: nat, offsets: Option<Seq<u8>>)
    requires
        type_offset_bytes(t) is Some,
    ensures
        ({
            let w = type_offset_bytes(t)->0;
            &&& (length + 1) * w <= usize::MAX ==> buffer_len_of(t, length, offsets, 1) == Ok::<
                nat,
                ArrowError,
            >((length + 1) * w)
            &&& last_offset_of(offsets, length, w) is Ok && last_offset_of(offsets, length, w)->Ok_0
                <= usize::MAX ==> buffer_len_of(t, length, offsets, 2) == last_offset_of(
                offsets,
                length,
                w,
            )
        }),
{
}

} // verus!
