//! The colon-grouped hexadecimal block layout used when dumping key
//! components and certificate serial numbers.
//!
//! A value is rendered as two hex digits per byte, bytes joined by `:`. In
//! the wrapped layout a line break follows every fifteenth byte group (the
//! colon is kept before the break) and continuation lines are indented by
//! four spaces. The byte width is either given by the caller or derived from
//! the value itself, which pads the natural hex length to an even digit
//! count.

use vstd::prelude::*;
use vstd::string::StringExecFns;
use crate::bignum::{digit_char, nibble_char, normalize, normalize_spec};
use crate::text::push_char;

verus! {

/// How many byte groups are laid out per line in the wrapped layout.
pub open spec fn groups_per_line() -> int {
    15
}

/// The two hex digit characters of one byte.
pub open spec fn hex_pair(b: u8) -> Seq<char> {
    seq![nibble_char((b / 16) as nat), nibble_char((b % 16) as nat)]
}

/// The separator that follows the `j`-th byte group (1-based) of `n`: nothing
/// after the last group, otherwise a colon, followed in the wrapped layout by
/// a line break and a four-space indent after every fifteenth group.
pub open spec fn group_sep(j: int, n: int, wrap: bool) -> Seq<char> {
    if j < n {
        if wrap && j % groups_per_line() == 0 {
            seq![':'] + "\n    "@
        } else {
            seq![':']
        }
    } else {
        Seq::<char>::empty()
    }
}

/// The rendered byte groups of `s` from index `i` on.
pub open spec fn hex_groups_from(s: Seq<u8>, i: int, wrap: bool) -> Seq<char>
    decreases s.len() - i,
{
    if i < 0 || i >= s.len() {
        Seq::<char>::empty()
    } else {
        hex_pair(s[i]) + group_sep(i + 1, s.len() as int, wrap) + hex_groups_from(s, i + 1, wrap)
    }
}

/// The full colon-grouped hex block of a byte string: one group per byte.
pub open spec fn hex_block(s: Seq<u8>, wrap: bool) -> Seq<char> {
    hex_groups_from(s, 0, wrap)
}

/// A digit character is never a line break.
proof fn lemma_nibble_char_is_no_break(d: nat)
    requires
        d < 16,
    ensures
        nibble_char(d) != '\n',
{
}

/// Helper for the single-line law: no character of the unwrapped rendering,
/// from any starting group on, is a line break.
proof fn lemma_groups_no_break(s: Seq<u8>, i: int, j: int)
    requires
        0 <= j < hex_groups_from(s, i, false).len(),
    ensures
        hex_groups_from(s, i, false)[j] != '\n',
    decreases s.len() - i,
{
    assert(!(i < 0 || i >= s.len()));
    let head = hex_pair(s[i]) + group_sep(i + 1, s.len() as int, false);
    let tail = hex_groups_from(s, i + 1, false);
    assert(hex_groups_from(s, i, false) == head + tail);
    if j < head.len() {
        lemma_nibble_char_is_no_break((s[i] / 16) as nat);
        lemma_nibble_char_is_no_break((s[i] % 16) as nat);
        assert(head[j] != '\n');
    } else {
        lemma_groups_no_break(s, i + 1, j - head.len());
    }
}

/// Helper for the wrap-boundary law: past the fifteenth group, rendering
/// continues exactly as a fresh rendering of the tail, since the wrap
/// positions align again.
proof fn lemma_groups_skip15(s: Seq<u8>, k: int)
    requires
        s.len() > groups_per_line(),
        0 <= k,
    ensures
        hex_groups_from(s, 15 + k, true) == hex_groups_from(s.skip(15), k, true),
    decreases s.len() - k,
{
    if 15 + k < s.len() {
        lemma_groups_skip15(s, k + 1);
        assert(s.skip(15)[k] == s[15 + k]);
        assert((15 + (k + 1)) % 15 == (k + 1) % 15) by {
            vstd::arithmetic::div_mod::lemma_mod_add_multiples_vanish(k + 1, 15);
        }
        assert(group_sep(15 + k + 1, s.len() as int, true) == group_sep(
            k + 1,
            s.len() - 15,
            true,
        ));
    }
}

/// Helper for the wrap-boundary law, walking the first fifteen groups: each
/// renders as in the single-line layout of the head, and the fifteenth is
/// followed by the kept colon, the line break and the four-space indent.
proof fn lemma_wrap_prefix(s: Seq<u8>, i: int)
    requires
        s.len() > groups_per_line(),
        0 <= i < 15,
    ensures
        hex_groups_from(s, i, true) == hex_groups_from(s.take(15), i, false) + (seq![':']
            + "\n    "@) + hex_groups_from(s.skip(15), 0, true),
    decreases 15 - i,
{
    let brk = seq![':'] + "\n    "@;
    let tail = hex_groups_from(s.skip(15), 0, true);
    if i == 14 {
        lemma_groups_skip15(s, 0);
        assert(group_sep(15, s.len() as int, true) == brk);
        assert(s.take(15)[14] == s[14]);
        assert(hex_groups_from(s.take(15), 15, false) == Seq::<char>::empty());
        assert(hex_groups_from(s.take(15), 14, false) =~= hex_pair(s[14]));
        assert(hex_groups_from(s, 14, true) =~= hex_groups_from(s.take(15), 14, false) + brk
            + tail);
    } else {
        lemma_wrap_prefix(s, i + 1);
        assert(s.take(15)[i] == s[i]);
        assert(group_sep(i + 1, s.len() as int, true) == group_sep(i + 1, 15, false));
        assert(hex_groups_from(s, i, true) =~= hex_groups_from(s.take(15), i, false) + brk
            + tail);
    }
}

/// The wrap boundary: past fifteen byte groups, the wrapped layout renders
/// the first fifteen groups as one unwrapped line, keeps their trailing
/// colon, breaks the line, indents the continuation by four spaces, and lays
/// the remaining groups out the same way.
pub proof fn lemma_wrap_after_fifteen_groups(s: Seq<u8>)
    requires
        s.len() > groups_per_line(),
    ensures
        hex_block(s, true) == hex_block(s.take(15), false) + (seq![':'] + "\n    "@) + hex_block(
            s.skip(15),
            true,
        ),
{
    lemma_wrap_prefix(s, 0);
}

/// Helper for the short-value law: from any starting group of a string of
/// at most fifteen bytes, the wrapped and single-line renderings agree.
proof fn lemma_groups_short_agree(s: Seq<u8>, i: int)
    requires
        s.len() <= groups_per_line(),
    ensures
        hex_groups_from(s, i, true) == hex_groups_from(s, i, false),
    decreases s.len() - i,
{
    if 0 <= i < s.len() {
        lemma_groups_short_agree(s, i + 1);
    }
}

/// Wrapping begins only after the fifteenth byte group: a value of at most
/// fifteen groups renders identically in the wrapped and the single-line
/// layout.
pub proof fn lemma_short_value_never_wraps(s: Seq<u8>)
    requires
        s.len() <= groups_per_line(),
    ensures
        hex_block(s, true) == hex_block(s, false),
{
    lemma_groups_short_agree(s, 0);
}

/// The single-line layout really is single-line: an unwrapped hex block
/// holds hex digits and colons alone, never a line break.
pub proof fn lemma_single_line_layout(s: Seq<u8>, j: int)
    requires
        0 <= j < hex_block(s, false).len(),
    ensures
        hex_block(s, false)[j] != '\n',
{
    lemma_groups_no_break(s, 0, j);
}

/// Renders the byte groups of `s`, wrapped or single-line.
fn hex_block_string(s: &[u8], wrap: bool) -> (r: String)
    ensures
        r@ == hex_block(s@, wrap),
{
    let mut out = String::new();
    let mut i: usize = 0;
    assert(out@ + hex_groups_from(s@, 0, wrap) =~= hex_block(s@, wrap));
    while i < s.len()
        invariant
            i <= s@.len(),
            out@ + hex_groups_from(s@, i as int, wrap) == hex_block(s@, wrap),
        decreases s@.len() - i,
    {
        let ghost entry = out@;
        let b = s[i];
        push_char(&mut out, digit_char(b / 16));
        push_char(&mut out, digit_char(b % 16));
        assert(out@ =~= entry + hex_pair(b));
        if i + 1 < s.len() {
            push_char(&mut out, ':');
            if wrap && (i + 1) % 15 == 0 {
                out.append("\n    ");
                assert(out@ =~= entry + hex_pair(b) + (seq![':'] + "\n    "@));
            }
        }
        assert(out@ =~= entry + hex_pair(b) + group_sep(i + 1, s@.len() as int, wrap));
        assert(out@ + hex_groups_from(s@, i + 1, wrap) =~= entry + hex_groups_from(
            s@,
            i as int,
            wrap,
        ));
        i = i + 1;
    }
    assert(out@ =~= out@ + hex_groups_from(s@, s@.len() as int, wrap));
    out
}

/// Renders a value at its derived byte width: the natural hex length padded
/// to an even digit count, one group per byte, wrapped after every fifteenth
/// group. The value zero renders as the single group `00`.
pub fn format_hex(value: &[u8]) -> (r: String)
    ensures
        r@ == hex_block(normalize_spec(value@), true),
{
    let t = normalize(value);
    hex_block_string(t.as_slice(), true)
}

/// The normalized bytes of a value, left-padded with zero bytes to the given
/// width.
pub open spec fn padded_spec(s: Seq<u8>, w: nat) -> Seq<u8> {
    Seq::new((w - s.len()) as nat, |i: int| 0u8) + s
}

/// Renders a value at an explicit byte width, left-padded with `00` groups;
/// the width must not be smaller than the value's own bytes.
pub fn format_hex_width(value: &[u8], byte_width: usize) -> (r: String)
    requires
        normalize_spec(value@).len() <= byte_width,
    ensures
        r@ == hex_block(padded_spec(normalize_spec(value@), byte_width as nat), true),
{
    let t = normalize(value);
    let pad: usize = byte_width - t.len();
    let mut padded: Vec<u8> = Vec::new();
    let mut k: usize = 0;
    assert(padded@ =~= Seq::new(0, |i: int| 0u8));
    while k < pad
        invariant
            k <= pad,
            padded@ == Seq::new(k as nat, |i: int| 0u8),
        decreases pad - k,
    {
        padded.push(0);
        assert(padded@ =~= Seq::new((k + 1) as nat, |i: int| 0u8));
        k = k + 1;
    }
    let mut j: usize = 0;
    while j < t.len()
        invariant
            j <= t@.len(),
            padded@ == Seq::new(pad as nat, |i: int| 0u8) + t@.take(j as int),
        decreases t@.len() - j,
    {
        padded.push(t[j]);
        assert(padded@ =~= Seq::new(pad as nat, |i: int| 0u8) + t@.take(j + 1int));
        j = j + 1;
    }
    assert(padded@ =~= padded_spec(normalize_spec(value@), byte_width as nat));
    hex_block_string(padded.as_slice(), true)
}

/// Renders a certificate serial number: derived byte width, colon-joined
/// groups, single line.
pub fn format_serial(value: &[u8]) -> (r: String)
    ensures
        r@ == hex_block(normalize_spec(value@), false),
{
    let t = normalize(value);
    hex_block_string(t.as_slice(), false)
}

} // verus!
