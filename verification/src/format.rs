//! Formatting helpers for human-readable token counts and session display.
//!
//! Terminal column widths follow `unicode-width`: CJK characters take two
//! columns, ASCII characters one.
use vstd::prelude::*;

use crate::decimal::{
    fixed_point, fixed_point_with, last_digits, push_last_digits, scaled_decimal,
    scaled_decimal_exec,
};
use crate::text::{chars_of, push_decimal, spec_decimal, string_from_chars};
use vstd::string::StringExecFns;

verus! {

// ============================================================
// Token counts
// ============================================================
/// What `fmt_tokens` prints for `n`.
pub open spec fn spec_fmt_tokens(n: nat) -> Seq<char> {
    if n >= 1_000_000_000 {
        fixed_point(scaled_decimal(n, 1_000_000_000, 2), 2) + seq!['B']
    } else if n >= 1_000_000 {
        fixed_point(scaled_decimal(n, 1_000_000, 2), 2) + seq!['M']
    } else if n >= 1_000 {
        fixed_point(scaled_decimal(n, 1_000, 1), 1) + seq!['K']
    } else {
        spec_decimal(n)
    }
}

/// What `fmt_count` prints for `n`.
/// The digits of `n` in groups of three, separated by commas.
pub open spec fn spec_fmt_count(n: nat) -> Seq<char>
    decreases n,
{
    if n < 1000 {
        spec_decimal(n)
    } else {
        spec_fmt_count(n / 1000) + seq![','] + last_digits(n % 1000, 3)
    }
}

/// Format a token count with human-readable suffixes (K/M/B).
pub fn fmt_tokens(n: u64) -> (r: String)
    ensures
        r@ == spec_fmt_tokens(n as nat),
{
    if n >= 1_000_000_000 {
        let v = scaled_decimal_exec(n, 1_000_000_000, 2);
        fixed_point_with(v, 2, 'B')
    } else if n >= 1_000_000 {
        let v = scaled_decimal_exec(n, 1_000_000, 2);
        fixed_point_with(v, 2, 'M')
    } else if n >= 1_000 {
        let v = scaled_decimal_exec(n, 1_000, 1);
        fixed_point_with(v, 1, 'K')
    } else {
        crate::text::decimal_string(n)
    }
}

fn push_grouped(n: u64, out: &mut Vec<char>)
    ensures
        final(out)@ == old(out)@ + spec_fmt_count(n as nat),
    decreases n,
{
    if n < 1000 {
        push_decimal(n as u128, out);
    } else {
        let ghost before = out@;
        push_grouped(n / 1000, out);
        out.push(',');
        push_last_digits((n % 1000) as u128, 3, out);
        assert(out@ =~= before + spec_fmt_count(n as nat));
    }
}

/// Format a count with thousands separators.
pub fn fmt_count(n: u64) -> (r: String)
    ensures
        r@ == spec_fmt_count(n as nat),
{
    let mut out: Vec<char> = Vec::new();
    push_grouped(n, &mut out);
    assert(out@ =~= spec_fmt_count(n as nat));
    string_from_chars(&out)
}

// ============================================================
// Display widths
// ============================================================
/// What `unicode_width::UnicodeWidthStr::width` returns for `s`: its width in
/// terminal columns.
pub uninterp spec fn str_display_width(s: Seq<char>) -> usize;

/// What `unicode_width::UnicodeWidthChar::width` returns for `c`: its width
/// in terminal columns, or nothing for a control character.
pub uninterp spec fn char_display_width(c: char) -> Option<usize>;

/// Calls `UnicodeWidthStr::width`.  The contract names the result.
#[verifier::external_body]
pub(crate) fn str_width(s: &str) -> (r: usize)
    ensures
        r == str_display_width(s@),
{
    unicode_width::UnicodeWidthStr::width(s)
}

/// Calls `UnicodeWidthChar::width`.  The contract names the result and
/// states what the crate's source gives for ASCII: nothing below U+0020,
/// one column from U+0020 up to U+007E.
#[verifier::external_body]
pub(crate) fn char_width(c: char) -> (r: Option<usize>)
    ensures
        r == char_display_width(c),
        c < ' ' ==> r is None,
        ' ' <= c && c < '\u{7f}' ==> r == Some(1usize),
{
    unicode_width::UnicodeWidthChar::width(c)
}

/// Width of a character as the truncation counts it (control characters
/// count zero).
pub open spec fn col_width(c: char) -> nat {
    match char_display_width(c) {
        Some(w) => w as nat,
        None => 0,
    }
}

/// Columns taken by the first `k` characters of `s`.
pub open spec fn prefix_width(s: Seq<char>, k: int) -> nat
    decreases k,
{
    if k <= 0 {
        0
    } else {
        prefix_width(s, k - 1) + col_width(s[k - 1])
    }
}

/// Number of leading characters kept when truncating to fewer than `max`
/// columns: characters are taken while the running width stays below `max`.
pub open spec fn kept_chars(s: Seq<char>, max: nat, k: int) -> int
    decreases s.len() - k,
{
    if k >= s.len() || prefix_width(s, k + 1) >= max {
        k
    } else {
        kept_chars(s, max, k + 1)
    }
}

proof fn lemma_kept_chars_fit(s: Seq<char>, max: nat, k: int)
    requires
        0 <= k <= s.len(),
        prefix_width(s, k) < max || k == 0,
    ensures
        k <= kept_chars(s, max, k) <= s.len(),
        prefix_width(s, kept_chars(s, max, k)) < max || kept_chars(s, max, k) == 0,
        kept_chars(s, max, k) == s.len() || prefix_width(s, kept_chars(s, max, k) + 1) >= max,
    decreases s.len() - k,
{
    if !(k >= s.len() || prefix_width(s, k + 1) >= max) {
        lemma_kept_chars_fit(s, max, k + 1);
    }
}

/// A cut string keeps as many leading characters as fit in fewer than
/// `max` columns (leaving one column for the ellipsis): the kept part is
/// narrower than `max`, and one more character would not be.
pub proof fn lemma_truncation_fits(s: Seq<char>, max: nat)
    requires
        max > 0,
    ensures
        prefix_width(s, kept_chars(s, max, 0)) < max,
        kept_chars(s, max, 0) == s.len() || prefix_width(s, kept_chars(s, max, 0) + 1) >= max,
        truncated(s, max) == s.take(kept_chars(s, max, 0)).push('…'),
{
    lemma_kept_chars_fit(s, max, 0);
    assert(s.take(kept_chars(s, max, 0)) + seq!['…'] =~= s.take(kept_chars(s, max, 0)).push('…'));
}

/// `s` cut to fewer than `max` columns, followed by an ellipsis.
pub open spec fn truncated(s: Seq<char>, max: nat) -> Seq<char> {
    s.take(kept_chars(s, max, 0)) + seq!['…']
}

/// The first characters of `chars` that fit in fewer than `max` columns,
/// followed by an ellipsis, and the columns of those characters.
fn truncate_to_width(chars: &Vec<char>, max: usize) -> (r: (Vec<char>, usize))
    ensures
        r.0@ == truncated(chars@, max as nat),
        r.1 == prefix_width(chars@, kept_chars(chars@, max as nat, 0)),
{
    let mut w: usize = 0;
    let mut k: usize = 0;
    while k < chars.len()
        invariant
            k <= chars.len(),
            w == prefix_width(chars@, k as int),
            w < max || k == 0,
            kept_chars(chars@, max as nat, 0) == kept_chars(chars@, max as nat, k as int),
            k == 0 ==> w == 0,
        ensures
            k <= chars.len(),
            k == kept_chars(chars@, max as nat, 0),
        decreases chars.len() - k,
    {
        let cw = match char_width(chars[k]) {
            Some(x) => x,
            None => 0,
        };
        assert(prefix_width(chars@, k + 1) == w + cw);
        if w >= max || cw >= max - w {
            break;
        }
        w = w + cw;
        k = k + 1;
    }
    let mut r: Vec<char> = Vec::new();
    let mut j: usize = 0;
    while j < k
        invariant
            j <= k <= chars.len(),
            r@ == chars@.take(j as int),
        decreases k - j,
    {
        r.push(chars[j]);
        j = j + 1;
        assert(r@ =~= chars@.take(j as int));
    }
    r.push('…');
    (r, w)
}

// ============================================================
// Session and project names
// ============================================================
/// The session id when it fits in `max_len` columns; otherwise as many
/// leading characters as fit in fewer than `max_len` columns, then `…`
/// (nothing at all when not even the ellipsis fits).
pub open spec fn spec_truncate_session_id(id: Seq<char>, max_len: nat) -> Seq<char> {
    if str_display_width(id) <= max_len {
        id
    } else if max_len == 0 {
        Seq::empty()
    } else {
        truncated(id, max_len)
    }
}

/// Truncate a session id to fit within `max_len` display columns, appending
/// an ellipsis when it is cut.
pub fn truncate_session_id(id: &str, max_len: usize) -> (r: String)
    ensures
        r@ == spec_truncate_session_id(id@, max_len as nat),
{
    if str_width(id) <= max_len {
        String::from_str(id)
    } else if max_len == 0 {
        String::new()
    } else {
        let chars = chars_of(id);
        let (t, _) = truncate_to_width(&chars, max_len);
        string_from_chars(&t)
    }
}

/// `n` spaces.
pub open spec fn spaces(n: nat) -> Seq<char> {
    Seq::new(n, |i: int| ' ')
}

/// `s` padded with spaces to `width` columns; when wider, cut to fewer than
/// `width` columns, followed by `…` and the spaces that fill the columns
/// left (nothing at all for zero columns).
pub open spec fn spec_pad(s: Seq<char>, width: nat) -> Seq<char> {
    if str_display_width(s) > width {
        if width == 0 {
            Seq::empty()
        } else {
            truncated(s, width) + spaces(
                (width - 1 - prefix_width(s, kept_chars(s, width, 0))) as nat,
            )
        }
    } else {
        s + Seq::new((width - str_display_width(s)) as nat, |i: int| ' ')
    }
}

/// Pad or truncate a string to fill `width` terminal columns (left-aligned).
pub fn pad(s: &str, width: usize) -> (r: String)
    ensures
        r@ == spec_pad(s@, width as nat),
{
    let chars = chars_of(s);
    let display_width = str_width(s);
    if display_width > width {
        if width == 0 {
            return String::new();
        }
        let (t, w) = truncate_to_width(&chars, width);
        proof {
            lemma_truncation_fits(chars@, width as nat);
        }
        let fill = width - 1 - w;
        let mut out = t;
        let ghost base = out@;
        let mut i: usize = 0;
        while i < fill
            invariant
                i <= fill,
                out@ == base + spaces(i as nat),
            decreases fill - i,
        {
            out.push(' ');
            i = i + 1;
            assert(out@ =~= base + spaces(i as nat));
        }
        string_from_chars(&out)
    } else {
        let padding = width - display_width;
        let mut out = chars;
        let mut i: usize = 0;
        while i < padding
            invariant
                i <= padding,
                out@ == s@ + Seq::new(i as nat, |j: int| ' '),
            decreases padding - i,
        {
            out.push(' ');
            i = i + 1;
            assert(out@ =~= s@ + Seq::new(i as nat, |j: int| ' '));
        }
        string_from_chars(&out)
    }
}

/// The part of `s` after its last `/` (all of `s` when it has none).
pub open spec fn after_last_slash(s: Seq<char>) -> Seq<char>
    decreases s.len(),
{
    if s.len() == 0 {
        s
    } else if s.last() == '/' {
        Seq::empty()
    } else {
        after_last_slash(s.drop_last()).push(s.last())
    }
}

/// Index of the first `c` in `s`, or -1.
pub open spec fn first_index_of(s: Seq<char>, c: char) -> int
    decreases s.len(),
{
    if s.len() == 0 {
        -1
    } else if s[0] == c {
        0
    } else {
        let k = first_index_of(s.drop_first(), c);
        if k >= 0 {
            k + 1
        } else {
            -1
        }
    }
}

/// The short name of a project directory: its last path component, with a
/// leading `-Users-<user>-` removed when something remains after it.
pub open spec fn spec_short_project_name(full_path: Seq<char>) -> Seq<char> {
    let name = after_last_slash(full_path);
    if name.len() >= 7 && name.take(7) == "-Users-"@ {
        let after = name.skip(7);
        let pos = first_index_of(after, '-');
        if pos >= 0 && after.skip(pos + 1).len() > 0 {
            after.skip(pos + 1)
        } else {
            name
        }
    } else {
        name
    }
}

proof fn lemma_after_last_slash(s: Seq<char>, k: int)
    requires
        0 <= k <= s.len(),
        forall|j: int| k <= j < s.len() ==> s[j] != '/',
        k == 0 || s[k - 1] == '/',
    ensures
        after_last_slash(s) == s.skip(k),
    decreases s.len(),
{
    if s.len() == k {
        assert(s.skip(k) =~= Seq::<char>::empty());
        if k > 0 {
            assert(s.last() == '/');
        }
    } else {
        lemma_after_last_slash(s.drop_last(), k);
        assert(s.skip(k) =~= s.drop_last().skip(k).push(s.last()));
    }
}

proof fn lemma_first_index_of(s: Seq<char>, c: char, k: int)
    requires
        0 <= k <= s.len(),
        forall|j: int| 0 <= j < k ==> s[j] != c,
        k == s.len() || s[k] == c,
    ensures
        first_index_of(s, c) == if k == s.len() {
            -1
        } else {
            k
        },
    decreases s.len(),
{
    if s.len() > 0 && s[0] != c {
        lemma_first_index_of(s.drop_first(), c, k - 1);
    }
}

fn subrange_chars(s: &Vec<char>, from: usize) -> (r: Vec<char>)
    requires
        from <= s.len(),
    ensures
        r@ == s@.skip(from as int),
{
    let mut r: Vec<char> = Vec::new();
    let mut j: usize = from;
    while j < s.len()
        invariant
            from <= j <= s.len(),
            r@ == s@.subrange(from as int, j as int),
        decreases s.len() - j,
    {
        r.push(s[j]);
        j = j + 1;
        assert(r@ =~= s@.subrange(from as int, j as int));
    }
    assert(s@.subrange(from as int, s.len() as int) =~= s@.skip(from as int));
    r
}

/// Extract a human-readable short name from a full project path.
///
/// `/Users/x/projects/-Users-x-Desktop-QC-QCliHub` becomes
/// `Desktop-QC-QCliHub`.
pub fn short_project_name(full_path: &str) -> (r: String)
    ensures
        r@ == spec_short_project_name(full_path@),
{
    let chars = chars_of(full_path);
    let mut k: usize = chars.len();
    while k > 0 && chars[k - 1] != '/'
        invariant
            k <= chars.len(),
            forall|j: int| k <= j < chars.len() ==> chars@[j] != '/',
        decreases k,
    {
        k = k - 1;
    }
    proof {
        lemma_after_last_slash(chars@, k as int);
    }
    let name = subrange_chars(&chars, k);
    let prefix = chars_of("-Users-");
    proof {
        reveal_strlit("-Users-");
    }
    if crate::text::starts_with_chars(&name, &prefix) {
        assert(name@.take(7) =~= prefix@);
        let after = subrange_chars(&name, 7);
        let mut pos: usize = 0;
        while pos < after.len() && after[pos] != '-'
            invariant
                pos <= after.len(),
                forall|j: int| 0 <= j < pos ==> after@[j] != '-',
            decreases after.len() - pos,
        {
            pos = pos + 1;
        }
        proof {
            lemma_first_index_of(after@, '-', pos as int);
        }
        if pos < after.len() {
            let project_part = subrange_chars(&after, pos + 1);
            if project_part.len() > 0 {
                return string_from_chars(&project_part);
            }
        }
    } else {
        proof {
            if name@.len() >= 7 && name@.take(7) == "-Users-"@ {
                assert(prefix@.is_prefix_of(name@));
            }
        }
    }
    string_from_chars(&name)
}

// ============================================================
// CSV
// ============================================================
/// `s` with every `"` doubled.
pub open spec fn double_quotes(s: Seq<char>) -> Seq<char>
    decreases s.len(),
{
    if s.len() == 0 {
        s
    } else {
        double_quotes(s.drop_last()) + if s.last() == '"' {
            seq!['"', '"']
        } else {
            seq![s.last()]
        }
    }
}

/// A CSV field needs quoting when it holds a comma, a quote or a line feed.
pub open spec fn needs_quoting(s: Seq<char>) -> bool {
    s.contains(',') || s.contains('"') || s.contains('\n')
}

/// The CSV field for `value`.
pub open spec fn spec_csv_escape(value: Seq<char>) -> Seq<char> {
    if needs_quoting(value) {
        seq!['"'] + double_quotes(value) + seq!['"']
    } else {
        value
    }
}

/// A quoted CSV field's inner text with every doubled quote made single
/// again.
pub open spec fn undouble_quotes(s: Seq<char>) -> Seq<char>
    decreases s.len(),
{
    if s.len() == 0 {
        s
    } else if s.len() >= 2 && s.last() == '"' && s[s.len() - 2] == '"' {
        undouble_quotes(s.take(s.len() - 2)).push('"')
    } else {
        undouble_quotes(s.drop_last()).push(s.last())
    }
}

/// The value a CSV field stands for: a field in quotes is its inner text
/// with doubled quotes made single; any other field is itself.
pub open spec fn csv_field_value(field: Seq<char>) -> Seq<char> {
    if field.len() >= 2 && field[0] == '"' && field.last() == '"' {
        undouble_quotes(field.subrange(1, field.len() - 1))
    } else {
        field
    }
}

proof fn lemma_undouble_double(s: Seq<char>)
    ensures
        undouble_quotes(double_quotes(s)) == s,
    decreases s.len(),
{
    if s.len() > 0 {
        lemma_undouble_double(s.drop_last());
        let d = double_quotes(s.drop_last());
        if s.last() == '"' {
            let e = d + seq!['"', '"'];
            assert(e.take(e.len() - 2) =~= d);
        } else {
            let e = d + seq![s.last()];
            assert(e.drop_last() =~= d);
        }
        assert(s.drop_last().push(s.last()) =~= s);
    }
}

/// Escaping loses nothing: the CSV field written for any value reads back
/// as that value.
pub proof fn lemma_csv_escape_roundtrip(value: Seq<char>)
    ensures
        csv_field_value(spec_csv_escape(value)) == value,
{
    if needs_quoting(value) {
        let f = seq!['"'] + double_quotes(value) + seq!['"'];
        assert(f.subrange(1, f.len() - 1) =~= double_quotes(value));
        lemma_undouble_double(value);
    } else {
        if value.len() >= 2 && value[0] == '"' {
            assert(value.contains('"'));
        }
    }
}

/// Escape a value for CSV output: wrap it in quotes, with inner quotes
/// doubled, when it contains a comma, a quote or a line feed.
pub fn csv_escape(value: &str) -> (r: String)
    ensures
        r@ == spec_csv_escape(value@),
{
    let chars = chars_of(value);
    let mut special = false;
    let mut i: usize = 0;
    while i < chars.len()
        invariant
            i <= chars.len(),
            special == (exists|j: int|
                0 <= j < i && (chars@[j] == ',' || chars@[j] == '"' || chars@[j] == '\n')),
        decreases chars.len() - i,
    {
        if chars[i] == ',' || chars[i] == '"' || chars[i] == '\n' {
            special = true;
        }
        i = i + 1;
    }
    proof {
        if special {
            let j = choose|j: int|
                0 <= j < i && (chars@[j] == ',' || chars@[j] == '"' || chars@[j] == '\n');
            assert(chars@[j] == ',' ==> value@.contains(','));
            assert(chars@[j] == '"' ==> value@.contains('"'));
            assert(chars@[j] == '\n' ==> value@.contains('\n'));
        } else {
            assert(!value@.contains(','));
            assert(!value@.contains('"'));
            assert(!value@.contains('\n'));
        }
    }
    if !special {
        return String::from_str(value);
    }
    let mut out: Vec<char> = Vec::new();
    out.push('"');
    let mut k: usize = 0;
    while k < chars.len()
        invariant
            k <= chars.len(),
            out@ == seq!['"'] + double_quotes(chars@.take(k as int)),
        decreases chars.len() - k,
    {
        assert(chars@.take(k + 1).drop_last() =~= chars@.take(k as int));
        if chars[k] == '"' {
            out.push('"');
            out.push('"');
        } else {
            out.push(chars[k]);
        }
        k = k + 1;
        assert(out@ =~= seq!['"'] + double_quotes(chars@.take(k as int)));
    }
    out.push('"');
    assert(chars@.take(chars.len() as int) =~= chars@);
    string_from_chars(&out)
}

} // verus!
