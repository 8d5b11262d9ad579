//! Character-level text utilities: whitespace trimming, splitting on a
//! separator, joining, string equality, and decimal conversions, each with an
//! exact sequence-level contract.

use vstd::prelude::*;
use vstd::string::StrSliceExecFns;
use vstd::string::StringExecFns;

verus! {

/// The Unicode `White_Space` code points, the set `char::is_whitespace`
/// accepts.
pub open spec fn is_ws_char(c: char) -> bool {
    let u = c as u32;
    (0x09 <= u && u <= 0x0D) || u == 0x20 || u == 0x85 || u == 0xA0 || u == 0x1680 || (0x2000 <= u
        && u <= 0x200A) || u == 0x2028 || u == 0x2029 || u == 0x202F || u == 0x205F || u == 0x3000
}

/// Executable whitespace test matching `is_ws_char`.
pub fn is_whitespace_char(c: char) -> (r: bool)
    ensures
        r == is_ws_char(c),
{
    let u = c as u32;
    (0x09 <= u && u <= 0x0D) || u == 0x20 || u == 0x85 || u == 0xA0 || u == 0x1680 || (0x2000 <= u
        && u <= 0x200A) || u == 0x2028 || u == 0x2029 || u == 0x202F || u == 0x205F || u == 0x3000
}

/// `s` with its leading whitespace removed.
pub open spec fn spec_trim_start(s: Seq<char>) -> Seq<char>
    decreases s.len(),
{
    if s.len() > 0 && is_ws_char(s[0]) {
        spec_trim_start(s.drop_first())
    } else {
        s
    }
}

/// `s` with its trailing whitespace removed.
pub open spec fn spec_trim_end(s: Seq<char>) -> Seq<char>
    decreases s.len(),
{
    if s.len() > 0 && is_ws_char(s[s.len() - 1]) {
        spec_trim_end(s.drop_last())
    } else {
        s
    }
}

/// `s` with leading and trailing whitespace removed.
pub open spec fn spec_trim(s: Seq<char>) -> Seq<char> {
    spec_trim_end(spec_trim_start(s))
}

/// Splitting at every occurrence of `sep`; the separators themselves are
/// dropped and empty pieces are kept, so the result always has one piece more
/// than `s` has separators.
pub open spec fn spec_split(s: Seq<char>, sep: char) -> Seq<Seq<char>>
    decreases s.len(),
{
    if s.len() == 0 {
        seq![Seq::<char>::empty()]
    } else if s[0] == sep {
        seq![Seq::<char>::empty()] + spec_split(s.drop_first(), sep)
    } else {
        let rest = spec_split(s.drop_first(), sep);
        seq![seq![s[0]] + rest[0]] + rest.drop_first()
    }
}

/// The pieces concatenated with `sep` between consecutive pieces.
pub open spec fn spec_join(ps: Seq<Seq<char>>, sep: char) -> Seq<char>
    decreases ps.len(),
{
    if ps.len() == 0 {
        Seq::<char>::empty()
    } else if ps.len() == 1 {
        ps[0]
    } else {
        ps[0] + seq![sep] + spec_join(ps.drop_first(), sep)
    }
}

/// The pieces of `ps`, each trimmed, with the pieces that were empty or all
/// whitespace dropped.
pub open spec fn spec_clean_pieces(ps: Seq<Seq<char>>) -> Seq<Seq<char>>
    decreases ps.len(),
{
    if ps.len() == 0 {
        Seq::<Seq<char>>::empty()
    } else {
        let t = spec_trim(ps[0]);
        let rest = spec_clean_pieces(ps.drop_first());
        if t.len() == 0 {
            rest
        } else {
            seq![t] + rest
        }
    }
}

/// The non-blank trimmed lines of a newline-delimited text.
pub open spec fn spec_clean_lines(s: Seq<char>) -> Seq<Seq<char>> {
    spec_clean_pieces(spec_split(s, '\n'))
}

proof fn lemma_trim_start_skip(s: Seq<char>, i: int)
    requires
        0 <= i <= s.len(),
        forall|k: int| 0 <= k < i ==> is_ws_char(s[k]),
    ensures
        spec_trim_start(s) == spec_trim_start(s.skip(i)),
    decreases i,
{
    if i > 0 {
        assert(s.drop_first() =~= s.skip(1));
        lemma_trim_start_skip(s.skip(1), i - 1);
        assert(s.skip(1).skip(i - 1) =~= s.skip(i));
    } else {
        assert(s.skip(0) =~= s);
    }
}

proof fn lemma_trim_end_take(s: Seq<char>, i: int)
    requires
        0 <= i <= s.len(),
        forall|k: int| i <= k < s.len() ==> is_ws_char(s[k]),
    ensures
        spec_trim_end(s) == spec_trim_end(s.take(i)),
    decreases s.len() - i,
{
    if i < s.len() {
        assert(is_ws_char(s[s.len() - 1]));
        assert(s.drop_last() =~= s.take(s.len() - 1));
        lemma_trim_end_take(s.take(s.len() - 1), i);
        assert(s.take(s.len() - 1).take(i) =~= s.take(i));
    } else {
        assert(s.take(i) =~= s);
    }
}

/// `str::trim` written out: removes leading and trailing whitespace.
pub fn trim(s: &str) -> (r: String)
    ensures
        r@ == spec_trim(s@),
{
    let n = s.unicode_len();
    let mut start: usize = 0;
    while start < n && is_whitespace_char(s.get_char(start))
        invariant
            n == s@.len(),
            start <= n,
            forall|k: int| 0 <= k < start ==> is_ws_char(s@[k]),
        decreases n - start,
    {
        start = start + 1;
    }
    proof {
        lemma_trim_start_skip(s@, start as int);
    }
    if start == n {
        proof {
            assert(s@.skip(n as int) =~= Seq::<char>::empty());
        }
        return String::new();
    }
    proof {
        assert(!is_ws_char(s@[start as int]));
        assert(s@.skip(start as int)[0] == s@[start as int]);
        assert(spec_trim_start(s@) == s@.skip(start as int));
    }
    let mut end: usize = n;
    while end > start && is_whitespace_char(s.get_char(end - 1))
        invariant
            n == s@.len(),
            start <= end <= n,
            start < n,
            forall|k: int| end <= k < n ==> is_ws_char(s@[k]),
            !is_ws_char(s@[start as int]),
        decreases end,
    {
        end = end - 1;
    }
    proof {
        if end == start {
            assert(is_ws_char(s@[start as int]));
        }
        assert(end > start);
        assert(!is_ws_char(s@[end - 1]));
    }
    let piece = s.substring_char(start, end);
    proof {
        let t = s@.skip(start as int);
        assert forall|k: int| end - start <= k < t.len() implies is_ws_char(t[k]) by {
            assert(t[k] == s@[start + k]);
        }
        lemma_trim_end_take(t, end - start);
        assert(t.take(end - start) =~= s@.subrange(start as int, end as int));
        let u = s@.subrange(start as int, end as int);
        assert(u[u.len() - 1] == s@[end - 1]);
        assert(spec_trim_end(u) == u);
    }
    piece.to_owned()
}

proof fn lemma_split_first_sep(s: Seq<char>, sep: char, i: int)
    requires
        0 <= i <= s.len(),
        forall|k: int| 0 <= k < i ==> s[k] != sep,
    ensures
        i == s.len() ==> spec_split(s, sep) == seq![s],
        i < s.len() && s[i] == sep ==> spec_split(s, sep) == seq![s.take(i)] + spec_split(
            s.skip(i + 1),
            sep,
        ),
    decreases i,
{
    if i == 0 {
        if i == s.len() {
            assert(s =~= Seq::<char>::empty());
            assert(spec_split(s, sep) =~~= seq![s]);
        } else if s[0] == sep {
            assert(s.drop_first() =~= s.skip(1));
            assert(s.take(0) =~= Seq::<char>::empty());
            assert(spec_split(s, sep) =~~= seq![s.take(0)] + spec_split(s.skip(1), sep));
        }
    } else {
        assert(s.len() > 0);
        assert(s[0] != sep);
        let d = s.drop_first();
        assert(d =~= s.skip(1));
        let r = spec_split(d, sep);
        lemma_split_first_sep(d, sep, i - 1);
        if i == s.len() {
            assert(r == seq![d]);
            assert(spec_split(s, sep) =~~= seq![s]);
        } else if s[i] == sep {
            assert(d[i - 1] == sep);
            assert(r == seq![d.take(i - 1)] + spec_split(d.skip(i), sep));
            assert(r[0] == d.take(i - 1));
            assert(seq![s[0]] + d.take(i - 1) =~= s.take(i));
            assert(r.drop_first() =~~= spec_split(d.skip(i), sep));
            assert(d.skip(i) =~= s.skip(i + 1));
            assert(spec_split(s, sep) =~~= seq![s.take(i)] + spec_split(s.skip(i + 1), sep));
        }
    }
}

/// `str::split` on one separator character, written out; empty pieces are
/// kept, as `split` keeps them.
pub fn split_str(s: &str, sep: char) -> (r: Vec<String>)
    ensures
        r.deep_view() == spec_split(s@, sep),
    decreases s@.len(),
{
    let n = s.unicode_len();
    let mut i: usize = 0;
    while i < n && s.get_char(i) != sep
        invariant
            n == s@.len(),
            i <= n,
            forall|k: int| 0 <= k < i ==> s@[k] != sep,
        decreases n - i,
    {
        i = i + 1;
    }
    proof {
        lemma_split_first_sep(s@, sep, i as int);
    }
    if i == n {
        let mut r: Vec<String> = Vec::new();
        r.push(s.to_owned());
        proof {
            assert(r.deep_view() =~~= seq![s@]);
        }
        r
    } else {
        let head = s.substring_char(0, i).to_owned();
        let tail = s.substring_char(i + 1, n);
        let mut r = split_str(tail, sep);
        let ghost before = r.deep_view();
        r.insert(0, head);
        proof {
            assert forall|j: int| 0 < j < r@.len() implies r@[j].deep_view() == before[j - 1] by {
            }
            assert(r.deep_view() =~~= seq![s@.take(i as int)] + spec_split(
                s@.skip(i as int + 1),
                sep,
            ));
        }
        r
    }
}

proof fn lemma_join_push(ps: Seq<Seq<char>>, x: Seq<char>, sep: char)
    ensures
        ps.len() == 0 ==> spec_join(ps.push(x), sep) == x,
        ps.len() > 0 ==> spec_join(ps.push(x), sep) == spec_join(ps, sep) + seq![sep] + x,
    decreases ps.len(),
{
    if ps.len() == 0 {
        assert(ps.push(x)[0] == x);
    } else {
        assert(ps.push(x).drop_first() =~~= ps.drop_first().push(x));
        lemma_join_push(ps.drop_first(), x, sep);
        if ps.len() == 1 {
            assert(spec_join(ps.push(x), sep) =~= ps[0] + seq![sep] + x);
            assert(spec_join(ps, sep) == ps[0]);
        } else {
            assert(spec_join(ps.push(x), sep) == ps[0] + seq![sep] + spec_join(
                ps.drop_first().push(x),
                sep,
            ));
            assert(spec_join(ps.drop_first().push(x), sep) == spec_join(ps.drop_first(), sep)
                + seq![sep] + x);
            assert(ps[0] + seq![sep] + (spec_join(ps.drop_first(), sep) + seq![sep] + x) =~= (ps[0]
                + seq![sep] + spec_join(ps.drop_first(), sep)) + seq![sep] + x);
        }
    }
}

/// The pieces joined with `sep` between consecutive pieces, as
/// `[&str]::join` produces it.
pub fn join_with(v: &Vec<String>, sep: char) -> (r: String)
    ensures
        r@ == spec_join(v.deep_view(), sep),
{
    let mut r = String::new();
    let mut i: usize = 0;
    while i < v.len()
        invariant
            i <= v.len(),
            r@ == spec_join(v.deep_view().take(i as int), sep),
        decreases v.len() - i,
    {
        if i > 0 {
            push_char(&mut r, sep);
        }
        r.append(v[i].as_str());
        proof {
            let dv = v.deep_view();
            assert(dv.take(i + 1) =~~= dv.take(i as int).push(dv[i as int]));
            lemma_join_push(dv.take(i as int), dv[i as int], sep);
        }
        i = i + 1;
    }
    proof {
        assert(v.deep_view().take(v.len() as int) =~~= v.deep_view());
    }
    r
}

/// The non-blank trimmed lines of `s`, in order.
pub fn clean_lines(s: &str) -> (r: Vec<String>)
    ensures
        r.deep_view() == spec_clean_lines(s@),
{
    let pieces = split_str(s, '\n');
    let mut out: Vec<String> = Vec::new();
    proof {
        assert(pieces.deep_view().skip(0) =~~= pieces.deep_view());
        assert(out.deep_view() + spec_clean_pieces(pieces.deep_view()) =~~= spec_clean_pieces(
            pieces.deep_view(),
        ));
    }
    let mut i: usize = 0;
    while i < pieces.len()
        invariant
            i <= pieces.len(),
            pieces.deep_view() == spec_split(s@, '\n'),
            out.deep_view() + spec_clean_pieces(pieces.deep_view().skip(i as int))
                == spec_clean_lines(s@),
        decreases pieces.len() - i,
    {
        let ghost pv = pieces.deep_view();
        let t = trim(pieces[i].as_str());
        proof {
            assert(pv.skip(i as int).drop_first() =~~= pv.skip(i as int + 1));
            assert(pv.skip(i as int)[0] == pv[i as int]);
        }
        let ghost before = out.deep_view();
        if t.unicode_len() > 0 {
            out.push(t);
            proof {
                assert(out.deep_view() =~~= before.push(t@));
                assert(before.push(t@) + spec_clean_pieces(pv.skip(i as int + 1)) =~= before + (
                seq![t@] + spec_clean_pieces(pv.skip(i as int + 1))));
            }
        }
        i = i + 1;
    }
    proof {
        let pv = pieces.deep_view();
        assert(pv.skip(pv.len() as int) =~~= Seq::<Seq<char>>::empty());
        assert(out.deep_view() + Seq::<Seq<char>>::empty() =~~= out.deep_view());
    }
    out
}

/// A single clean pattern line: non-empty, already trimmed, and free of
/// newlines.
pub open spec fn line_clean(s: Seq<char>) -> bool {
    &&& s.len() > 0
    &&& spec_trim(s) == s
    &&& forall|k: int| 0 <= k < s.len() ==> s[k] != '\n'
}

/// Joining clean lines with newlines and splitting them back is the
/// identity: the editable text of a set of clean pattern lines reproduces
/// exactly those lines.
pub proof fn lemma_clean_lines_of_join(ps: Seq<Seq<char>>)
    requires
        forall|i: int| 0 <= i < ps.len() ==> line_clean(#[trigger] ps[i]),
    ensures
        spec_clean_lines(spec_join(ps, '\n')) == ps,
    decreases ps.len(),
{
    if ps.len() == 0 {
        let s = spec_join(ps, '\n');
        assert(s =~= Seq::<char>::empty());
        let pieces = spec_split(s, '\n');
        assert(pieces =~~= seq![Seq::<char>::empty()]);
        assert(pieces[0] =~= Seq::<char>::empty());
        assert(spec_trim(pieces[0]) =~= Seq::<char>::empty());
        assert(pieces.drop_first() =~~= Seq::<Seq<char>>::empty());
        assert(spec_clean_pieces(Seq::<Seq<char>>::empty()) =~~= Seq::<Seq<char>>::empty());
        assert(spec_clean_pieces(pieces) =~~= ps);
    } else if ps.len() == 1 {
        let s = spec_join(ps, '\n');
        assert(s == ps[0]);
        lemma_split_first_sep(s, '\n', s.len() as int);
        let pieces = spec_split(s, '\n');
        assert(pieces == seq![s]);
        assert(pieces[0] == s);
        assert(spec_trim(s) == s);
        assert(pieces.drop_first() =~~= Seq::<Seq<char>>::empty());
        assert(spec_clean_pieces(pieces) =~~= seq![s] + spec_clean_pieces(
            Seq::<Seq<char>>::empty(),
        ));
        assert(seq![s] + Seq::<Seq<char>>::empty() =~~= ps);
    } else {
        let s = spec_join(ps, '\n');
        let head = ps[0];
        let tail = spec_join(ps.drop_first(), '\n');
        assert(s == head + seq!['\n'] + tail);
        let l0 = head.len() as int;
        assert forall|k: int| 0 <= k < l0 implies s[k] != '\n' by {
            assert(s[k] == head[k]);
        }
        assert(s[l0] == '\n');
        lemma_split_first_sep(s, '\n', l0);
        assert(s.take(l0) =~= head);
        assert(s.skip(l0 + 1) =~= tail);
        lemma_clean_lines_of_join(ps.drop_first());
        let pieces = spec_split(s, '\n');
        assert(pieces == seq![head] + spec_split(tail, '\n'));
        assert(pieces[0] == head);
        assert(pieces.drop_first() =~~= spec_split(tail, '\n'));
        assert(spec_trim(head) == head);
        assert(spec_clean_pieces(pieces) == seq![head] + spec_clean_pieces(spec_split(tail, '\n')));
        assert(seq![head] + ps.drop_first() =~~= ps);
    }
}

/// Character-for-character string equality.
pub fn str_eq(a: &str, b: &str) -> (r: bool)
    ensures
        r == (a@ == b@),
{
    let na = a.unicode_len();
    let nb = b.unicode_len();
    if na != nb {
        return false;
    }
    let mut i: usize = 0;
    while i < na
        invariant
            na == a@.len(),
            na == b@.len(),
            i <= na,
            forall|k: int| 0 <= k < i ==> a@[k] == b@[k],
        decreases na - i,
    {
        if a.get_char(i) != b.get_char(i) {
            assert(a@[i as int] != b@[i as int]);
            return false;
        }
        i = i + 1;
    }
    proof {
        assert(a@ =~= b@);
    }
    true
}

/// The decimal digit characters in order.
pub open spec fn spec_digit_char(d: nat) -> char {
    if d == 0 {
        '0'
    } else if d == 1 {
        '1'
    } else if d == 2 {
        '2'
    } else if d == 3 {
        '3'
    } else if d == 4 {
        '4'
    } else if d == 5 {
        '5'
    } else if d == 6 {
        '6'
    } else if d == 7 {
        '7'
    } else if d == 8 {
        '8'
    } else {
        '9'
    }
}

/// The decimal rendering of `n`, without sign or leading zeros.
pub open spec fn spec_dec(n: nat) -> Seq<char>
    decreases n,
{
    if n < 10 {
        seq![spec_digit_char(n)]
    } else {
        spec_dec(n / 10).push(spec_digit_char(n % 10))
    }
}

fn digit_char(d: u64) -> (c: char)
    requires
        d < 10,
    ensures
        c == spec_digit_char(d as nat),
{
    if d == 0 {
        '0'
    } else if d == 1 {
        '1'
    } else if d == 2 {
        '2'
    } else if d == 3 {
        '3'
    } else if d == 4 {
        '4'
    } else if d == 5 {
        '5'
    } else if d == 6 {
        '6'
    } else if d == 7 {
        '7'
    } else if d == 8 {
        '8'
    } else {
        '9'
    }
}

/// The decimal rendering of `n`, as `u64::to_string` would print it.
pub fn u64_to_dec(n: u64) -> (s: String)
    ensures
        s@ == spec_dec(n as nat),
    decreases n,
{
    if n < 10 {
        let mut s = String::new();
        push_char(&mut s, digit_char(n));
        proof {
            assert(Seq::<char>::empty() + seq![spec_digit_char(n as nat)] =~= seq![
                spec_digit_char(n as nat),
            ]);
        }
        s
    } else {
        let mut s = u64_to_dec(n / 10);
        push_char(&mut s, digit_char(n % 10));
        proof {
            assert(spec_dec((n / 10) as nat) + seq![spec_digit_char((n % 10) as nat)] =~= spec_dec(
                (n / 10) as nat,
            ).push(spec_digit_char((n % 10) as nat)));
        }
        s
    }
}

/// Whether `c` is a decimal digit.
pub open spec fn is_digit_char(c: char) -> bool {
    0x30 <= c as u32 && c as u32 <= 0x39
}

/// The value of a decimal digit character.
pub open spec fn digit_val(c: char) -> nat {
    (c as u32 - 0x30) as nat
}

/// Whether every character of `s` is a decimal digit.
pub open spec fn all_digits(s: Seq<char>) -> bool {
    forall|i: int| 0 <= i < s.len() ==> is_digit_char(s[i])
}

/// The value of a sequence of decimal digits, most significant first.
pub open spec fn dec_val(s: Seq<char>) -> nat
    decreases s.len(),
{
    if s.len() == 0 {
        0
    } else {
        dec_val(s.drop_last()) * 10 + digit_val(s.last())
    }
}

/// What `str::parse::<i64>` returns on the trimmed input: an optional sign,
/// then at least one digit, and a value within the `i64` range.
pub open spec fn spec_parse_i64(s: Seq<char>) -> Option<i64> {
    let t = spec_trim(s);
    let neg = t.len() > 0 && t[0] == '-';
    let digits = if t.len() > 0 && (t[0] == '-' || t[0] == '+') {
        t.drop_first()
    } else {
        t
    };
    if digits.len() == 0 || !all_digits(digits) {
        None
    } else if neg {
        if dec_val(digits) <= 0x8000000000000000 {
            Some((-(dec_val(digits) as int)) as i64)
        } else {
            None
        }
    } else {
        if dec_val(digits) <= 0x7fffffffffffffff {
            Some(dec_val(digits) as i64)
        } else {
            None
        }
    }
}

proof fn lemma_dec_val_prefix(s: Seq<char>, j: int)
    requires
        0 <= j <= s.len(),
    ensures
        dec_val(s) >= dec_val(s.take(j)),
    decreases s.len(),
{
    if j < s.len() {
        assert(s.drop_last().take(j) =~= s.take(j));
        lemma_dec_val_prefix(s.drop_last(), j);
        assert(dec_val(s.drop_last()) * 10 >= dec_val(s.drop_last())) by (nonlinear_arith);
    } else {
        assert(s.take(j) =~= s);
    }
}

/// Parses a trimmed decimal integer, exactly as `str::parse::<i64>` accepts
/// it after trimming: an optional `+` or `-`, then one or more digits, the
/// value fitting in an `i64`.
pub fn parse_i64_trimmed(s: &str) -> (r: Option<i64>)
    ensures
        r == spec_parse_i64(s@),
{
    let t = trim(s);
    let tn = t.as_str().unicode_len();
    if tn == 0 {
        return None;
    }
    let first = t.as_str().get_char(0);
    let neg = first == '-';
    let start: usize = if first == '-' || first == '+' {
        1
    } else {
        0
    };
    let ghost digits = if start == 1 {
        t@.drop_first()
    } else {
        t@
    };
    if tn == start {
        return None;
    }
    proof {
        assert(digits =~= t@.subrange(start as int, tn as int));
    }
    let limit: u64 = if neg {
        0x8000000000000000
    } else {
        0x7fffffffffffffff
    };
    let mut acc: u64 = 0;
    let mut i: usize = start;
    proof {
        assert(t@.subrange(start as int, start as int) =~= Seq::<char>::empty());
        assert(t@.drop_first() =~= t@.subrange(1, tn as int));
        assert(t@.subrange(0, tn as int) =~= t@);
    }
    while i < tn
        invariant
            t@ == spec_trim(s@),
            tn == t@.len(),
            start <= i <= tn,
            start < tn,
            start <= 1,
            start == 1 <==> tn > 0 && (t@[0] == '-' || t@[0] == '+'),
            neg <==> tn > 0 && t@[0] == '-',
            limit == if neg {
                0x8000000000000000u64
            } else {
                0x7fffffffffffffffu64
            },
            digits == t@.subrange(start as int, tn as int),
            t@.drop_first() == t@.subrange(1, tn as int),
            t@.subrange(0, tn as int) == t@,
            forall|k: int| start <= k < i ==> is_digit_char(t@[k]),
            acc == dec_val(t@.subrange(start as int, i as int)),
            acc <= limit,
        decreases tn - i,
    {
        let c = t.as_str().get_char(i);
        let u = c as u32;
        if !(0x30 <= u && u <= 0x39) {
            proof {
                assert(digits[i - start] == t@[i as int]);
                assert(!is_digit_char(digits[i - start]));
            }
            return None;
        }
        let d = (u - 0x30) as u64;
        if acc > (limit - d) / 10 {
            proof {
                let pre = t@.subrange(start as int, i as int + 1);
                assert(pre.drop_last() =~= t@.subrange(start as int, i as int));
                assert(pre.last() == t@[i as int]);
                assert(dec_val(pre) == acc * 10 + d);
                assert(acc * 10 + d > limit) by (nonlinear_arith)
                    requires
                        acc > (limit - d) / 10,
                        d <= 9,
                        d <= limit,
                ;
                assert(digits.take(i - start + 1) =~= pre);
                lemma_dec_val_prefix(digits, i - start + 1);
                assert(dec_val(digits) > limit);
            }
            return None;
        }
        proof {
            assert(acc * 10 + d <= limit) by (nonlinear_arith)
                requires
                    acc <= (limit - d) / 10,
                    d <= 9,
                    d <= limit,
            ;
            let pre = t@.subrange(start as int, i as int + 1);
            assert(pre.drop_last() =~= t@.subrange(start as int, i as int));
            assert(pre.last() == t@[i as int]);
        }
        acc = acc * 10 + d;
        i = i + 1;
    }
    proof {
        assert(digits =~= t@.subrange(start as int, tn as int));
        assert(all_digits(digits));
        assert(acc == dec_val(digits));
    }
    if neg {
        if acc <= 0x7fffffffffffffff {
            Some(-(acc as i64))
        } else {
            proof {
                assert(acc == 0x8000000000000000);
            }
            Some(i64::MIN)
        }
    } else {
        Some(acc as i64)
    }
}

/// The value of a hexadecimal digit character, upper or lower case.
pub open spec fn spec_hex_val(c: char) -> Option<u8> {
    let u = c as u32;
    if 0x30 <= u && u <= 0x39 {
        Some((u - 0x30) as u8)
    } else if 0x41 <= u && u <= 0x46 {
        Some((u - 0x41 + 10) as u8)
    } else if 0x61 <= u && u <= 0x66 {
        Some((u - 0x61 + 10) as u8)
    } else {
        None
    }
}

/// The byte written by two hexadecimal digit characters.
pub open spec fn spec_hex_byte(c1: char, c2: char) -> Option<u8> {
    if spec_hex_val(c1) is Some && spec_hex_val(c2) is Some {
        Some((spec_hex_val(c1)->0 * 16 + spec_hex_val(c2)->0) as u8)
    } else {
        None
    }
}

/// Reads one byte out of two hexadecimal digit characters.
pub fn hex_byte(c1: char, c2: char) -> (r: Option<u8>)
    ensures
        r == spec_hex_byte(c1, c2),
{
    let v1 = hex_val(c1);
    let v2 = hex_val(c2);
    match (v1, v2) {
        (Some(a), Some(b)) => Some(a * 16 + b),
        _ => None,
    }
}

fn hex_val(c: char) -> (r: Option<u8>)
    ensures
        r == spec_hex_val(c),
{
    let u = c as u32;
    if 0x30 <= u && u <= 0x39 {
        Some((u - 0x30) as u8)
    } else if 0x41 <= u && u <= 0x46 {
        Some((u - 0x41 + 10) as u8)
    } else if 0x61 <= u && u <= 0x66 {
        Some((u - 0x61 + 10) as u8)
    } else {
        None
    }
}

/// Whether `v` holds `s`, character for character.
pub(crate) fn vec_contains_str(v: &Vec<String>, s: &str) -> (r: bool)
    ensures
        r == v.deep_view().contains(s@),
{
    match find_str(v, s) {
        Some(_) => true,
        None => false,
    }
}

/// The position of the first member of `v` equal to `s`, if any.
pub(crate) fn find_str(v: &Vec<String>, s: &str) -> (r: Option<usize>)
    ensures
        match r {
            Some(i) => i < v@.len() && v.deep_view()[i as int] == s@ && forall|k: int|
                0 <= k < i ==> v.deep_view()[k] != s@,
            None => !v.deep_view().contains(s@),
        },
{
    let mut i: usize = 0;
    while i < v.len()
        invariant
            i <= v.len(),
            forall|k: int| 0 <= k < i ==> v.deep_view()[k] != s@,
        decreases v.len() - i,
    {
        if str_eq(v[i].as_str(), s) {
            proof {
                assert(v.deep_view()[i as int] == v@[i as int]@);
            }
            return Some(i);
        }
        i = i + 1;
    }
    proof {
        assert forall|k: int| 0 <= k < v.deep_view().len() implies v.deep_view()[k] != s@ by {
        }
    }
    None
}

/// Relies on `String::push`: appends exactly one character.
#[verifier::external_body]
pub(crate) fn push_char(s: &mut String, c: char)
    ensures
        final (s)@ == old(s)@ + seq![c],
{
    s.push(c);
}

/// What `str::to_lowercase` returns; it depends on the characters alone.
pub uninterp spec fn lower_of(s: Seq<char>) -> Seq<char>;

/// Relies on `str::to_lowercase`: the result is a function of the input
/// characters alone.
#[verifier::external_body]
pub(crate) fn to_lowercase(s: &str) -> (r: String)
    ensures
        r@ == lower_of(s@),
{
    s.to_lowercase()
}

} // verus!
