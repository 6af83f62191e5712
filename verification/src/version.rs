//! The firmware version as the USB device release number.

use vstd::prelude::*;

verus! {

/// The ASCII full stop.
pub const DOT: u8 = 46;

/// The ASCII digits `0` and `9`.
pub const ZERO: u8 = 48;

pub const NINE: u8 = 57;

/// Whether a byte is a decimal digit.
pub open spec fn is_digit(byte: u8) -> bool {
    ZERO <= byte <= NINE
}

/// The dots in `bytes`.
pub open spec fn dots(bytes: Seq<u8>) -> nat
    decreases bytes.len(),
{
    if bytes.len() == 0 {
        0
    } else if bytes.last() == DOT {
        dots(bytes.drop_last()) + 1
    } else {
        dots(bytes.drop_last())
    }
}

/// The decimal number that the digits between dot `part` and the next one
/// spell; anything that is no digit is passed over.
pub open spec fn part_value(bytes: Seq<u8>, part: nat) -> nat
    decreases bytes.len(),
{
    if bytes.len() == 0 {
        0
    } else {
        let rest = bytes.drop_last();
        if is_digit(bytes.last()) && dots(rest) == part {
            part_value(rest, part) * 10 + (bytes.last() - ZERO) as nat
        } else {
            part_value(rest, part)
        }
    }
}

/// The release number of version `a.b.c`: `a` in the high byte, `b` and `c` a
/// nibble each.
pub open spec fn release_of(a: int, b: int, c: int) -> int {
    (a % 256) * 256 + (b % 16) * 16 + c % 16
}

/// The number of a part never shrinks as more is read.
proof fn lemma_part_grows(bytes: Seq<u8>, upto: int, part: nat)
    requires
        0 <= upto <= bytes.len(),
    ensures
        part_value(bytes.take(upto), part) <= part_value(bytes, part),
    decreases bytes.len() - upto,
{
    if upto < bytes.len() {
        lemma_part_grows(bytes, upto + 1, part);
        assert(bytes.take(upto + 1).drop_last() == bytes.take(upto));
    } else {
        assert(bytes.take(upto) == bytes);
    }
}

/// "a.b.c" as a USB `bcdDevice`, so that the updater can read the running
/// version straight from the device descriptor.
pub fn version_bcd(s: &str) -> (release: u16)
    requires
        forall|part: nat| part < 3 ==> #[trigger] part_value(vstd::utf8::encode_utf8(s@), part) <= u16::MAX,
    ensures
        release == release_of(
            part_value(vstd::utf8::encode_utf8(s@), 0) as int,
            part_value(vstd::utf8::encode_utf8(s@), 1) as int,
            part_value(vstd::utf8::encode_utf8(s@), 2) as int,
        ),
{
    let b = s.as_bytes();
    let ghost bytes = vstd::utf8::encode_utf8(s@);
    let mut parts: [u16; 3] = [0; 3];
    let mut pi: usize = 0;
    let mut i: usize = 0;
    while i < b.len()
        invariant
            b@ == bytes,
            i <= b.len(),
            pi <= i,
            pi == dots(bytes.take(i as int)),
            forall|part: nat| part < 3 ==> #[trigger] part_value(bytes, part) <= u16::MAX,
            forall|part: nat|
                part < 3 ==> parts@[part as int] == #[trigger] part_value(
                    bytes.take(i as int),
                    part,
                ),
        decreases b.len() - i,
    {
        let ghost before = parts@;
        assert(bytes.take(i + 1).drop_last() == bytes.take(i as int));
        assert(bytes.take(i + 1).last() == bytes[i as int]);
        if b[i] == DOT {
            pi += 1;
        } else if b[i] >= ZERO && b[i] <= NINE && pi < 3 {
            proof {
                lemma_part_grows(bytes, i + 1, pi as nat);
                assert(part_value(bytes, pi as nat) <= u16::MAX);
                assert(parts@[pi as int] == part_value(bytes.take(i as int), pi as nat));
                assert(part_value(bytes.take(i + 1), pi as nat) == parts@[pi as int] * 10 + (
                bytes[i as int] - ZERO));
            }
            parts[pi] = parts[pi] * 10 + (b[i] - ZERO) as u16;
        }
        assert forall|part: nat| part < 3 implies parts@[part as int] == #[trigger] part_value(
            bytes.take(i + 1),
            part,
        ) by {
            assert(before[part as int] == part_value(bytes.take(i as int), part));
        }
        i += 1;
    }
    assert(bytes.take(b.len() as int) == bytes);
    let (major, minor, patch): (u16, u16, u16) = (parts[0], parts[1], parts[2]);
    assert(((major & 0xFF) << 8) | ((minor & 0xF) << 4) | (patch & 0xF) == (major % 256) * 256 + (
    minor % 16) * 16 + patch % 16) by (bit_vector);
    assert(part_value(bytes, 0) == major && part_value(bytes, 1) == minor && part_value(bytes, 2)
        == patch);
    ((major & 0xFF) << 8) | ((minor & 0xF) << 4) | (patch & 0xF)
}

/// Parts that fit are taken as they are.
proof fn lemma_release(a: int, b: int, c: int)
    requires
        0 <= a < 256,
        0 <= b < 16,
        0 <= c < 16,
    ensures
        release_of(a, b, c) == a * 256 + b * 16 + c,
{
}

/// The release number tells the version: two versions whose parts fit have the
/// same number only if they are the same.
pub proof fn law_release_tells_version(a: int, b: int, c: int, x: int, y: int, z: int)
    requires
        0 <= a < 256,
        0 <= b < 16,
        0 <= c < 16,
        0 <= x < 256,
        0 <= y < 16,
        0 <= z < 16,
        release_of(a, b, c) == release_of(x, y, z),
    ensures
        a == x && b == y && c == z,
{
    lemma_release(a, b, c);
    lemma_release(x, y, z);
    if a < x {
        assert(a * 256 + b * 16 + c < x * 256);
    } else if a > x {
        assert(x * 256 + y * 16 + z < a * 256);
    }
}

/// A version is read byte by byte: a digit goes behind the digits of the part it
/// stands in, a dot begins the next part, and anything else is passed over. No
/// byte changes another part.
pub proof fn law_version_is_read_by_parts(bytes: Seq<u8>, byte: u8, part: nat)
    ensures
        part_value(Seq::empty(), part) == 0,
        dots(Seq::empty()) == 0,
        dots(bytes.push(byte)) == dots(bytes) + (if byte == 46 {
            1nat
        } else {
            0nat
        }),
        48 <= byte <= 57 && part == dots(bytes) ==> part_value(bytes.push(byte), part) == 10
            * part_value(bytes, part) + byte - 48,
        !(48 <= byte <= 57) || part != dots(bytes) ==> part_value(bytes.push(byte), part)
            == part_value(bytes, part),
{
    assert(bytes.push(byte).drop_last() == bytes);
}

/// The first part is the high byte of the release number, the second and the third
/// the two nibbles of the low byte.
pub proof fn law_release_digits(a: int, b: int, c: int)
    requires
        a >= 0,
        b >= 0,
        c >= 0,
    ensures
        release_of(a, b, c) / 256 == a % 256,
        (release_of(a, b, c) / 16) % 16 == b % 16,
        release_of(a, b, c) % 16 == c % 16,
        0 <= release_of(a, b, c) < 65536,
{
}

} // verus!
