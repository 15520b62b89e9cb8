//! Names of the files of the build cache.
use crate::lsp::replace_all;
use crate::text::{chars_of, ends_with, push_all, push_str, string_of};
use vstd::prelude::*;

verus! {

/// The lowercase hexadecimal digit of `d` (below 16).
pub open spec fn hex_char(d: nat) -> char {
    if d < 10 {
        ((d + 48) as u8) as char
    } else {
        ((d + 87) as u8) as char
    }
}

/// The last `k` hexadecimal digits of `n`, zero-padded (`{:0k x}` for a
/// value below `16^k`).
pub open spec fn hex_digits(n: nat, k: nat) -> Seq<char>
    decreases k,
{
    if k == 0 {
        Seq::empty()
    } else {
        hex_digits(n / 16, (k - 1) as nat).push(hex_char(n % 16))
    }
}

fn hex_digit(d: u64) -> (c: char)
    requires
        d < 16,
    ensures
        c == hex_char(d as nat),
{
    let b: u8 = if d < 10 {
        (d as u8) + 48
    } else {
        (d as u8) + 87
    };
    b as char
}

/// Appends the sixteen hexadecimal digits of `n` (`{:016x}`).
fn push_hex16(out: &mut Vec<char>, n: u64)
    ensures
        final(out)@ == old(out)@ + hex_digits(n as nat, 16),
{
    let mut digits: Vec<char> = Vec::new();
    let mut m = n;
    let mut k: u64 = 0;
    while k < 16
        invariant
            k <= 16,
            hex_digits(n as nat, 16) == hex_digits(m as nat, (16 - k) as nat) + digits@,
        decreases 16 - k,
    {
        let c = hex_digit(m % 16);
        proof {
            assert(hex_digits(m as nat, (16 - k) as nat) == hex_digits((m / 16) as nat, (16 - k - 1) as nat).push(
                hex_char((m % 16) as nat),
            ));
        }
        digits.insert(0, c);
        proof {
            assert(hex_digits(n as nat, 16) =~= hex_digits((m / 16) as nat, (16 - k - 1) as nat) + digits@);
        }
        m = m / 16;
        k = k + 1;
    }
    proof {
        assert(hex_digits(m as nat, 0) =~= Seq::<char>::empty());
        assert(hex_digits(n as nat, 16) =~= digits@);
    }
    push_all(out, digits.as_slice());
}

/// The name of the cached object file of the source with hash `source_hash`:
/// the hash as sixteen hexadecimal digits, then `.o`.
pub fn cached_obj_name(source_hash: u64) -> (r: String)
    ensures
        r@ == hex_digits(source_hash as nat, 16) + ".o"@,
{
    let mut out: Vec<char> = Vec::new();
    push_hex16(&mut out, source_hash);
    push_str(&mut out, ".o");
    string_of(out.as_slice())
}

/// The name of the cached IR file of the source with hash `source_hash`:
/// the hash as sixteen hexadecimal digits, then `.ll`.
pub fn cached_ir_name(source_hash: u64) -> (r: String)
    ensures
        r@ == hex_digits(source_hash as nat, 16) + ".ll"@,
{
    let mut out: Vec<char> = Vec::new();
    push_hex16(&mut out, source_hash);
    push_str(&mut out, ".ll");
    string_of(out.as_slice())
}

/// The object file that a build of `label` writes: for a `.ky` file, its
/// name with each `.ky` replaced by `.o`; else `output.o`.
pub open spec fn obj_path(label: Seq<char>) -> Seq<char> {
    if ends_with(label, ".ky"@) {
        replace_all(label, ".ky"@, ".o"@)
    } else {
        "output.o"@
    }
}

/// The object file that a build of `label` writes.
pub fn obj_path_for(label: &str) -> (r: String)
    ensures
        r@ == obj_path(label@),
{
    let lc = chars_of(label);
    let n = lc.len();
    proof {
        reveal_strlit(".ky");
    }
    if n >= 3 && lc[n - 3] == '.' && lc[n - 2] == 'k' && lc[n - 1] == 'y' {
        proof {
            assert(label@.skip(n - 3) =~= ".ky"@);
        }
        let body = crate::lsp::replace_text(label, ".ky", ".o");
        string_of(body.as_slice())
    } else {
        proof {
            if ends_with(label@, ".ky"@) {
                assert(label@.skip(n - 3)[0] == lc@[n - 3]);
                assert(label@.skip(n - 3)[1] == lc@[n - 2]);
                assert(label@.skip(n - 3)[2] == lc@[n - 1]);
            }
        }
        "output.o".to_owned()
    }
}

} // verus!
