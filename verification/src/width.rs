//! Display width of characters and strings in terminal columns.
//!
//! The width of a single character comes from the `unicode-width` crate; a
//! string's display width is the sum of its characters' widths. Control
//! characters, for which the crate reports no width, count as zero columns.

use vstd::prelude::*;

verus! {

/// What `unicode_width::UnicodeWidthChar::width` returns for `c`: the
/// character's displayed width in columns, or `None` for a control character.
pub uninterp spec fn unicode_char_width(c: char) -> Option<usize>;

/// Displayed width of one character in terminal columns.
///
/// Relies on `unicode_width::UnicodeWidthChar::width`. The result depends on
/// the character alone. Its documentation and table lookup further show:
/// printable ASCII is one column wide; the control ranges U+0000..U+0020 and
/// U+007F..U+00A0 have no width; U+17D8 (Khmer sign beyyal) is three columns
/// wide and every other character is at most two.
#[verifier::external_body]
fn unicode_width_of(c: char) -> (r: Option<usize>)
    ensures
        r == unicode_char_width(c),
        32 <= (c as u32) && (c as u32) < 127 ==> r == Some(1usize),
        ((c as u32) < 32 || (127 <= (c as u32) && (c as u32) < 160)) ==> r is None,
        c == '\u{17D8}' ==> (r is Some ==> r->0 <= 3),
        c != '\u{17D8}' ==> (r is Some ==> r->0 <= 2),
{
    unicode_width::UnicodeWidthChar::width(c)
}

/// Columns that `c` occupies on screen: the `unicode-width` width, zero for
/// control characters, bounded as that crate's documentation states.
pub open spec fn char_width(c: char) -> nat {
    if 32 <= (c as u32) && (c as u32) < 127 {
        1
    } else if (c as u32) < 32 || (127 <= (c as u32) && (c as u32) < 160) {
        0
    } else {
        let w = match unicode_char_width(c) {
            Option::Some(w) => w as nat,
            Option::None => 0,
        };
        let cap: nat = if c == '\u{17D8}' {
            3
        } else {
            2
        };
        if w <= cap {
            w
        } else {
            cap
        }
    }
}

/// Displayed width of one character, executable form.
pub fn exec_char_width(c: char) -> (w: usize)
    ensures
        w == char_width(c),
        w <= 3,
{
    match unicode_width_of(c) {
        Option::Some(w) => w,
        Option::None => 0,
    }
}

/// Display width of a string of characters: the sum of its characters'
/// widths.
pub open spec fn str_width(s: Seq<char>) -> nat
    decreases s.len(),
{
    if s.len() == 0 {
        0
    } else {
        char_width(s[0]) + str_width(s.drop_first())
    }
}

/// Width is additive: a string's width is the width of any front part plus
/// the width of the rest.
pub proof fn lemma_str_width_split(s: Seq<char>, i: int)
    requires
        0 <= i <= s.len(),
    ensures
        str_width(s) == str_width(s.take(i)) + str_width(s.skip(i)),
    decreases i,
{
    if i == 0 {
        assert(s.take(0) =~= Seq::<char>::empty());
        assert(s.skip(0) =~= s);
    } else {
        lemma_str_width_split(s.drop_first(), i - 1);
        assert(s.take(i).drop_first() =~= s.drop_first().take(i - 1));
        assert(s.skip(i) =~= s.drop_first().skip(i - 1));
        assert(s.take(i)[0] == s[0]);
        assert(str_width(s.take(i)) == char_width(s[0]) + str_width(s.drop_first().take(i - 1)));
    }
}

/// Appending one character adds that character's width.
pub proof fn lemma_str_width_push(s: Seq<char>, c: char)
    ensures
        str_width(s.push(c)) == str_width(s) + char_width(c),
    decreases s.len(),
{
    if s.len() == 0 {
        assert(s.push(c)[0] == c);
        assert(s.push(c).drop_first() =~= Seq::<char>::empty());
        assert(str_width(s.push(c)) == char_width(c) + str_width(s.push(c).drop_first()));
        assert(str_width(s.push(c)) == str_width(s) + char_width(c));
    } else {
        assert(s.push(c)[0] == s[0]);
        assert(s.push(c).drop_first() =~= s.drop_first().push(c));
        lemma_str_width_push(s.drop_first(), c);
        assert(str_width(s.push(c)) == char_width(s[0]) + str_width(s.drop_first().push(c)));
        assert(str_width(s.push(c)) == str_width(s) + char_width(c));
    }
}

/// A front part of a string is no wider than the whole.
pub proof fn lemma_str_width_take_le(s: Seq<char>, i: int)
    requires
        0 <= i <= s.len(),
    ensures
        str_width(s.take(i)) <= str_width(s),
{
    lemma_str_width_split(s, i);
}

/// Display width of a string, saturated at `cap` columns.
pub fn width_capped(s: &str, cap: usize) -> (r: usize)
    ensures
        r == if str_width(s@) < cap {
            str_width(s@)
        } else {
            cap as nat
        },
{
    let n = s.unicode_len();
    let mut i: usize = 0;
    let mut acc: usize = 0;
    while i < n
        invariant
            i <= n,
            n == s@.len(),
            acc == str_width(s@.take(i as int)),
            acc <= cap,
        decreases n - i,
    {
        let c = s.get_char(i);
        let w = exec_char_width(c);
        proof {
            assert(s@.take(i + 1) =~= s@.take(i as int).push(s@[i as int]));
            lemma_str_width_push(s@.take(i as int), s@[i as int]);
        }
        if (acc as u128) + (w as u128) >= cap as u128 {
            proof {
                lemma_str_width_take_le(s@, i + 1);
            }
            return cap;
        }
        acc = acc + w;
        i = i + 1;
    }
    proof {
        assert(s@.take(n as int) =~= s@);
    }
    acc
}

/// Whether the display width of `s` exceeds `cap` columns.
pub fn width_exceeds(s: &str, cap: usize) -> (r: bool)
    ensures
        r == (str_width(s@) > cap),
{
    let n = s.unicode_len();
    let mut i: usize = 0;
    let mut acc: u128 = 0;
    while i < n
        invariant
            i <= n,
            n == s@.len(),
            acc == str_width(s@.take(i as int)),
            acc <= cap,
        decreases n - i,
    {
        let c = s.get_char(i);
        let w = exec_char_width(c);
        proof {
            assert(s@.take(i + 1) =~= s@.take(i as int).push(s@[i as int]));
            lemma_str_width_push(s@.take(i as int), s@[i as int]);
        }
        if acc + (w as u128) > cap as u128 {
            proof {
                lemma_str_width_take_le(s@, i + 1);
            }
            return true;
        }
        acc = acc + w as u128;
        i = i + 1;
    }
    proof {
        assert(s@.take(n as int) =~= s@);
    }
    false
}

} // verus!
