//! Columnar layout of directory entries.
//!
//! Every entry becomes one line: a fixed-width type prefix, the name
//! truncated to the name column and padded with spaces, and the
//! human-readable size right-aligned on its integer digits. Truncation
//! counts terminal columns, not characters, so wide characters are never
//! split; a truncated name ends in an ellipsis.

use vstd::prelude::*;
use crate::width::{char_width, str_width, exec_char_width, width_exceeds, width_capped};
use crate::width::lemma_str_width_push;
use crate::text::{digit_count, dec_rep, digit_char, spaces, lemma_digit_count_u64};
use crate::text::{num_digits, push_spaces, push_u64_decimal, push_two_digits};
use crate::size::{size_whole, size_hundredths, unit_index, unit_at, pow1024, lemma_pow1024_pos};
use crate::size::human_readable_size;
use vstd::string::StringExecFns;
use vstd::string::StrSliceExecFns;

verus! {

/// One direct child of the browsed directory: its display name, its fully
/// resolved byte size, and whether it is a directory.
pub struct FileEntry {
    pub name: String,
    pub size: u64,
    pub is_dir: bool,
}

impl FileEntry {
    /// Builds an entry from its parts.
    pub fn new(name: String, size: u64, is_dir: bool) -> (r: FileEntry)
        ensures
            r.name@ == name@,
            r.size == size,
            r.is_dir == is_dir,
    {
        FileEntry { name, size, is_dir }
    }
}

/// Columns available to name characters before the ellipsis: one less than
/// the column width, nothing for a zero width.
pub open spec fn crop_budget(w: nat) -> nat {
    if w == 0 {
        0
    } else {
        (w - 1) as nat
    }
}

/// How many leading characters of `s` fit when `cur` columns are already
/// used and every kept character must leave the total strictly below
/// `limit`.
pub open spec fn fit_len(s: Seq<char>, cur: nat, limit: nat) -> nat
    decreases s.len(),
{
    if s.len() == 0 {
        0
    } else {
        let cw = char_width(s[0]);
        if cur + cw >= limit {
            0
        } else {
            1 + fit_len(s.drop_first(), cur + cw, limit)
        }
    }
}

/// What cropping `s` to `w` columns yields: `s` itself when it fits, else
/// the widest front part that leaves room for the ellipsis, with the
/// ellipsis appended.
pub open spec fn crop_spec(s: Seq<char>, w: nat) -> Seq<char> {
    if str_width(s) <= w {
        s
    } else {
        s.take(fit_len(s, 0, crop_budget(w)) as int).push('\u{2026}')
    }
}

/// Crops `s` to at most `max_width` display columns, appending an ellipsis
/// when anything was cut. A name that already fits is returned unchanged.
pub fn crop_string(s: &str, max_width: usize) -> (r: String)
    ensures
        r@ == crop_spec(s@, max_width as nat),
        str_width(s@) <= max_width ==> r@ == s@,
{
    if !width_exceeds(s, max_width) {
        return s.to_owned();
    }
    let limit: usize = if max_width == 0 {
        0
    } else {
        max_width - 1
    };
    let n = s.unicode_len();
    let mut i: usize = 0;
    let mut cur: usize = 0;
    let mut done = false;
    proof {
        assert(s@.skip(0) =~= s@);
        assert(s@.take(0) =~= Seq::<char>::empty());
    }
    while i < n && !done
        invariant
            i <= n,
            n == s@.len(),
            cur <= limit,
            limit == crop_budget(max_width as nat),
            cur == str_width(s@.take(i as int)),
            !done ==> fit_len(s@, 0, limit as nat) == i + fit_len(
                s@.skip(i as int),
                cur as nat,
                limit as nat,
            ),
            done ==> fit_len(s@, 0, limit as nat) == i,
        decreases n - i, (if done { 0int } else { 1int }),
    {
        let c = s.get_char(i);
        let cw = exec_char_width(c);
        proof {
            assert(s@.skip(i as int).len() > 0);
            assert(s@.skip(i as int)[0] == s@[i as int]);
        }
        if cur >= limit || cw >= limit - cur {
            proof {
                assert(fit_len(s@.skip(i as int), cur as nat, limit as nat) == 0);
            }
            done = true;
        } else {
            proof {
                assert(s@.skip(i as int).drop_first() =~= s@.skip(i + 1));
                assert(fit_len(s@.skip(i as int), cur as nat, limit as nat) == 1 + fit_len(
                    s@.skip(i + 1),
                    (cur + cw) as nat,
                    limit as nat,
                ));
                assert(s@.take(i + 1) =~= s@.take(i as int).push(s@[i as int]));
                lemma_str_width_push(s@.take(i as int), s@[i as int]);
            }
            cur = cur + cw;
            i = i + 1;
        }
    }
    proof {
        if !done {
            assert(s@.skip(n as int) =~= Seq::<char>::empty());
            assert(fit_len(s@, 0, limit as nat) == n);
        }
        assert(fit_len(s@, 0, limit as nat) == i);
    }
    let prefix = s.substring_char(0, i);
    let mut r = prefix.to_owned();
    crate::text::push_char(&mut r, '\u{2026}');
    proof {
        assert(s@.subrange(0, i as int) =~= s@.take(i as int));
        assert(r@ =~= crop_spec(s@, max_width as nat));
    }
    r
}

/// Never more characters fit than there are.
proof fn lemma_fit_len_le(s: Seq<char>, cur: nat, limit: nat)
    ensures
        fit_len(s, cur, limit) <= s.len(),
    decreases s.len(),
{
    if s.len() > 0 && cur + char_width(s[0]) < limit {
        lemma_fit_len_le(s.drop_first(), cur + char_width(s[0]), limit);
    }
}

/// Kept characters never fill the budget: starting from `cur` used columns,
/// the fitting front part stays strictly below `limit` columns in total.
proof fn lemma_fit_width(s: Seq<char>, cur: nat, limit: nat)
    ensures
        cur + str_width(s.take(fit_len(s, cur, limit) as int)) <= vstd::math::max(
            cur as int,
            limit as int - 1,
        ),
    decreases s.len(),
{
    if s.len() == 0 || cur + char_width(s[0]) >= limit {
        assert(s.take(0) =~= Seq::<char>::empty());
    } else {
        let cw = char_width(s[0]);
        lemma_fit_width(s.drop_first(), cur + cw, limit);
        lemma_fit_len_le(s.drop_first(), cur + cw, limit);
        let f = fit_len(s.drop_first(), cur + cw, limit);
        assert(s.take(1 + f as int)[0] == s[0]);
        assert(s.take(1 + f as int).drop_first() =~= s.drop_first().take(f as int));
        assert(str_width(s.take(1 + f as int)) == cw + str_width(s.drop_first().take(f as int)));
    }
}

/// Cropping respects the column budget: for a width of at least two
/// columns, the cropped name, ellipsis included, is never wider than the
/// budget. (A one-column budget can still be filled by the ellipsis
/// itself.)
pub proof fn lemma_crop_width(s: Seq<char>, w: nat)
    requires
        w >= 2,
    ensures
        str_width(crop_spec(s, w)) <= w,
{
    if str_width(s) > w {
        lemma_fit_width(s, 0, crop_budget(w));
        let prefix = s.take(fit_len(s, 0, crop_budget(w)) as int);
        lemma_str_width_push(prefix, '\u{2026}');
        assert(char_width('\u{2026}') <= 2);
    }
}

/// The fixed-width type prefix of a line, seven columns.
pub open spec fn type_prefix(is_dir: bool) -> Seq<char> {
    if is_dir {
        "[DIR]  "@
    } else {
        "[FILE] "@
    }
}

/// The name column: the cropped name, padded with spaces to `w` columns.
pub open spec fn padded_name(name: Seq<char>, w: nat) -> Seq<char> {
    let c = crop_spec(name, w);
    c + spaces(if str_width(c) < w {
        (w - str_width(c)) as nat
    } else {
        0
    })
}

/// The size column: the humanized value right-aligned to `md` integer
/// digits, two decimals, and the unit.
pub open spec fn size_field(b: nat, md: nat) -> Seq<char> {
    let w = size_whole(b);
    let h = size_hundredths(b);
    spaces(
        if digit_count(w) < md {
            (md - digit_count(w)) as nat
        } else {
            0
        },
    ) + dec_rep(w) + seq!['.'] + seq![digit_char(h / 10), digit_char(h % 10)] + seq![' ']
        + unit_at(unit_index(b)).label()
}

/// One rendered line: type prefix, name column and size column, separated
/// by single spaces.
pub open spec fn line_spec(e: FileEntry, name_w: nat, md: nat) -> Seq<char> {
    type_prefix(e.is_dir) + seq![' '] + padded_name(e.name@, name_w) + seq![' '] + size_field(
        e.size as nat,
        md,
    )
}

/// Renders one entry as a line of the listing.
pub fn format_file_entry(f: &FileEntry, name_width: u16, max_digits: usize) -> (line: String)
    ensures
        line@ == line_spec(*f, name_width as nat, max_digits as nat),
{
    let mut line = String::new();
    if f.is_dir {
        line.append("[DIR]  ");
    } else {
        line.append("[FILE] ");
    }
    line.append(" ");
    let cropped = crop_string(f.name.as_str(), name_width as usize);
    line.append(cropped.as_str());
    let cw = width_capped(cropped.as_str(), name_width as usize);
    push_spaces(&mut line, name_width as usize - cw);
    line.append(" ");
    let h = human_readable_size(f.size);
    let dc = num_digits(h.whole);
    proof {
        lemma_digit_count_u64(h.whole as nat);
    }
    push_spaces(
        &mut line,
        if dc < max_digits {
            max_digits - dc
        } else {
            0
        },
    );
    push_u64_decimal(&mut line, h.whole);
    crate::text::push_char(&mut line, '.');
    push_two_digits(&mut line, h.hundredths);
    line.append(" ");
    line.append(h.unit.text());
    proof {
        reveal_strlit(" ");
        assert(" "@ =~= seq![' ']);
        let b = f.size as nat;
        let pad1: nat = if str_width(crop_spec(f.name@, name_width as nat)) < name_width as nat {
            (name_width as nat - str_width(crop_spec(f.name@, name_width as nat))) as nat
        } else {
            0
        };
        let pad2: nat = if digit_count(size_whole(b)) < max_digits as nat {
            (max_digits as nat - digit_count(size_whole(b))) as nat
        } else {
            0
        };
        assert(padded_name(f.name@, name_width as nat) == crop_spec(f.name@, name_width as nat)
            + spaces(pad1));
        assert(size_field(b, max_digits as nat) == spaces(pad2) + dec_rep(size_whole(b))
            + seq!['.'] + seq![
            digit_char(size_hundredths(b) / 10),
            digit_char(size_hundredths(b) % 10),
        ] + seq![' '] + unit_at(unit_index(b)).label());
        assert(line@ =~= line_spec(*f, name_width as nat, max_digits as nat));
    }
    line
}

/// Decimal digits of the largest humanized integer part over the entries,
/// at least one.
pub open spec fn max_digits_spec(es: Seq<FileEntry>) -> nat
    decreases es.len(),
{
    if es.len() == 0 {
        1
    } else {
        let d = digit_count(size_whole(es[0].size as nat));
        let rest = max_digits_spec(es.drop_first());
        if d > rest {
            d
        } else {
            rest
        }
    }
}

proof fn lemma_max_digits_bounds(es: Seq<FileEntry>)
    ensures
        1 <= max_digits_spec(es) <= 20,
    decreases es.len(),
{
    if es.len() > 0 {
        lemma_max_digits_bounds(es.drop_first());
        let b = es[0].size as nat;
        assert(size_whole(b) <= b) by {
            lemma_pow1024_pos(unit_index(b));
            assert(b / pow1024(unit_index(b)) <= b) by (nonlinear_arith)
                requires
                    pow1024(unit_index(b)) >= 1,
            ;
        }
        lemma_digit_count_u64(size_whole(b));
    }
}

/// Digit count of the widest humanized integer part across the entries.
pub fn max_whole_digits(entries: &Vec<FileEntry>) -> (r: usize)
    ensures
        r == max_digits_spec(entries@),
        1 <= r <= 20,
{
    let n = entries.len();
    let mut acc: usize = 1;
    let mut i: usize = 0;
    proof {
        assert(entries@.skip(0) =~= entries@);
        lemma_max_digits_bounds(entries@);
    }
    while i < n
        invariant
            i <= n,
            n == entries@.len(),
            1 <= acc <= 20,
            max_digits_spec(entries@) == if acc > max_digits_spec(entries@.skip(i as int)) {
                acc as nat
            } else {
                max_digits_spec(entries@.skip(i as int))
            },
        decreases n - i,
    {
        let h = human_readable_size(entries[i].size);
        let d = num_digits(h.whole);
        proof {
            lemma_digit_count_u64(h.whole as nat);
            assert(entries@.skip(i as int)[0] == entries@[i as int]);
            assert(entries@.skip(i as int).drop_first() =~= entries@.skip(i + 1));
        }
        if d > acc {
            acc = d;
        }
        i = i + 1;
    }
    proof {
        assert(entries@.skip(n as int) =~= Seq::<FileEntry>::empty());
    }
    acc
}

/// Columns left for the name once the prefix, the size column and the
/// margins are taken out of the terminal width; zero when the terminal is
/// too narrow.
pub open spec fn name_col_width(cols: nat, md: nat) -> nat {
    if cols > md + 15 {
        (cols - (md + 15)) as nat
    } else {
        0
    }
}

/// Rows of the terminal left for entries: all but the title line and the
/// two input and echo lines at the bottom.
pub open spec fn row_budget(rows: nat) -> nat {
    if rows > 3 {
        (rows - 3) as nat
    } else {
        0
    }
}

/// Renders the visible entries for a terminal of `cols` by `rows`: one line
/// per entry in their original order, capped to the row budget.
pub fn render(entries: &Vec<FileEntry>, cols: u16, rows: u16) -> (lines: Vec<String>)
    ensures
        lines@.len() == vstd::math::min(entries@.len() as int, row_budget(rows as nat) as int),
        forall|i: int|
            0 <= i < lines@.len() ==> lines@[i]@ == line_spec(
                entries@[i],
                name_col_width(cols as nat, max_digits_spec(entries@)),
                max_digits_spec(entries@),
            ),
{
    let md = max_whole_digits(entries);
    let nw: u16 = if (cols as usize) > md + 15 {
        cols - (md as u16 + 15)
    } else {
        0
    };
    let budget: usize = if rows > 3 {
        (rows - 3) as usize
    } else {
        0
    };
    let count = if entries.len() < budget {
        entries.len()
    } else {
        budget
    };
    let mut lines: Vec<String> = Vec::new();
    let mut i: usize = 0;
    while i < count
        invariant
            i <= count,
            count <= entries@.len(),
            md == max_digits_spec(entries@),
            nw == name_col_width(cols as nat, max_digits_spec(entries@)),
            lines@.len() == i,
            forall|j: int|
                0 <= j < i ==> lines@[j]@ == line_spec(
                    entries@[j],
                    name_col_width(cols as nat, max_digits_spec(entries@)),
                    max_digits_spec(entries@),
                ),
        decreases count - i,
    {
        let line = format_file_entry(&entries[i], nw, md);
        lines.push(line);
        i = i + 1;
    }
    lines
}

} // verus!
