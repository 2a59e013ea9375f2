//! Verified text utilities: substring search, string equality, URL base
//! comparison, decimal rendering and the escaping rules used when text is
//! handed to a shell command or embedded in a page script.

use vstd::prelude::*;
use vstd::string::*;

verus! {

/// The needle `n` occurs in `h` starting at position `i`.
pub open spec fn matches_at(h: Seq<char>, n: Seq<char>, i: int) -> bool {
    0 <= i && i + n.len() <= h.len() && (forall|j: int| 0 <= j < n.len() ==> h[i + j] == n[j])
}

/// The needle `n` occurs somewhere in `h`.
pub open spec fn has_substring(h: Seq<char>, n: Seq<char>) -> bool {
    exists|i: int| matches_at(h, n, i)
}

/// Whether `h` contains `n`, by direct character comparison.
pub fn contains_str(h: &str, n: &str) -> (r: bool)
    ensures
        r == has_substring(h@, n@),
{
    match find_substring(h, n) {
        Some(_) => true,
        None => false,
    }
}

/// Position of the first occurrence of `n` in `h`, if any.
pub fn find_substring(h: &str, n: &str) -> (r: Option<usize>)
    ensures
        match r {
            Some(i) => matches_at(h@, n@, i as int) && (forall|k: int|
                0 <= k < i ==> !matches_at(h@, n@, k)),
            None => !has_substring(h@, n@),
        },
{
    let hl: usize = h.unicode_len();
    let nl: usize = n.unicode_len();
    if nl > hl {
        assert(forall|i: int| !matches_at(h@, n@, i));
        return None;
    }
    let mut i: usize = 0;
    while i <= hl - nl
        invariant
            nl <= hl,
            hl == h@.len(),
            nl == n@.len(),
            i <= hl - nl + 1,
            forall|k: int| 0 <= k < i ==> !matches_at(h@, n@, k),
        decreases hl - nl + 1 - i,
    {
        let mut j: usize = 0;
        let mut same = true;
        while j < nl
            invariant
                nl <= hl,
                hl == h@.len(),
                nl == n@.len(),
                i + nl <= hl,
                j <= nl,
                same ==> (forall|t: int| 0 <= t < j ==> h@[i + t] == n@[t]),
                !same ==> !matches_at(h@, n@, i as int),
            decreases nl - j,
        {
            if h.get_char(i + j) != n.get_char(j) {
                same = false;
                j = nl;
            } else {
                j = j + 1;
            }
        }
        if same {
            assert(matches_at(h@, n@, i as int));
            return Some(i);
        }
        i = i + 1;
    }
    assert forall|k: int| !matches_at(h@, n@, k) by {
        if matches_at(h@, n@, k) {
            assert(0 <= k <= hl - nl);
        }
    }
    None
}

/// The first position at or after `i` whose character satisfies `p`, or the
/// end of `s`.
pub open spec fn scan(s: Seq<char>, i: int, p: spec_fn(char) -> bool) -> int
    decreases s.len() - i,
{
    if i < 0 || i >= s.len() {
        s.len() as int
    } else if p(s[i]) {
        i
    } else {
        scan(s, i + 1, p)
    }
}

/// What `scan` returns: a position in bounds, nothing before it satisfies
/// `p`, and it either is the end or satisfies `p`.
pub proof fn lemma_scan_props(s: Seq<char>, i: int, p: spec_fn(char) -> bool)
    requires
        0 <= i <= s.len(),
    ensures
        i <= scan(s, i, p) <= s.len(),
        forall|j: int| i <= j < scan(s, i, p) ==> !p(s[j]),
        scan(s, i, p) < s.len() ==> p(s[scan(s, i, p)]),
    decreases s.len() - i,
{
    if i < s.len() && !p(s[i]) {
        lemma_scan_props(s, i + 1, p);
    }
}

/// `scan` is pinned down by those properties: any position with them is the
/// scan result.
pub proof fn lemma_scan_unique(s: Seq<char>, i: int, p: spec_fn(char) -> bool, k: int)
    requires
        0 <= i <= k <= s.len(),
        forall|j: int| i <= j < k ==> !p(s[j]),
        k < s.len() ==> p(s[k]),
    ensures
        scan(s, i, p) == k,
    decreases s.len() - i,
{
    if i < s.len() && !p(s[i]) {
        lemma_scan_unique(s, i + 1, p, k);
    }
}

/// The first occurrence of `n` in `h` at or after `i`, if any.
pub open spec fn find_from(h: Seq<char>, n: Seq<char>, i: int) -> Option<int>
    decreases h.len() - i,
{
    if i < 0 || i + n.len() > h.len() {
        None
    } else if matches_at(h, n, i) {
        Some(i)
    } else {
        find_from(h, n, i + 1)
    }
}

/// A first match pins `find_from` down.
pub proof fn lemma_find_from_some(h: Seq<char>, n: Seq<char>, i: int, k: int)
    requires
        0 <= i <= k,
        matches_at(h, n, k),
        forall|j: int| i <= j < k ==> !matches_at(h, n, j),
    ensures
        find_from(h, n, i) == Some(k),
    decreases h.len() - i,
{
    if i < k {
        lemma_find_from_some(h, n, i + 1, k);
    }
}

/// With no match anywhere there is none to find.
pub proof fn lemma_find_from_none(h: Seq<char>, n: Seq<char>, i: int)
    requires
        0 <= i,
        !has_substring(h, n),
    ensures
        find_from(h, n, i) is None,
    decreases h.len() - i,
{
    if !(i + n.len() > h.len()) {
        lemma_find_from_none(h, n, i + 1);
    }
}

/// `i` is the split point of `s` before its query string: everything before
/// `i` is free of `'?'`, and `i` is either the first `'?'` or the end.
pub open spec fn is_base_split(s: Seq<char>, i: int) -> bool {
    0 <= i <= s.len() && (forall|j: int| 0 <= j < i ==> s[j] != '?') && (i == s.len() || s[i]
        == '?')
}

/// Two URLs have the same base: their parts before any query string agree.
pub open spec fn bases_equal(a: Seq<char>, b: Seq<char>) -> bool {
    exists|i: int, j: int|
        is_base_split(a, i) && is_base_split(b, j) && a.subrange(0, i) == b.subrange(0, j)
}

/// A sequence has only one base split point.
pub proof fn lemma_base_split_unique(s: Seq<char>, i: int, j: int)
    requires
        is_base_split(s, i),
        is_base_split(s, j),
    ensures
        i == j,
{
    if i < j {
        assert(s[i] == '?');
        assert(s[i] != '?');
    }
    if j < i {
        assert(s[j] == '?');
        assert(s[j] != '?');
    }
}

/// The part of a URL before its query string (before the first `'?'`).
pub fn url_base<'a>(url: &'a str) -> (r: &'a str)
    ensures
        is_base_split(url@, r@.len() as int),
        r@ == url@.subrange(0, r@.len() as int),
{
    let l: usize = url.unicode_len();
    let mut i: usize = 0;
    while i < l
        invariant
            l == url@.len(),
            i <= l,
            forall|j: int| 0 <= j < i ==> url@[j] != '?',
        decreases l - i,
    {
        if url.get_char(i) == '?' {
            return url.substring_char(0, i);
        }
        i = i + 1;
    }
    url.substring_char(0, l)
}

/// Whether two URLs agree on their base part, ignoring query strings.
pub fn url_base_eq(a: &str, b: &str) -> (r: bool)
    ensures
        r == bases_equal(a@, b@),
{
    let ab = url_base(a);
    let bb = url_base(b);
    let r = str_eq(ab, bb);
    proof {
        if r {
            assert(bases_equal(a@, b@));
        } else {
            if bases_equal(a@, b@) {
                let (i, j) = choose|i: int, j: int|
                    is_base_split(a@, i) && is_base_split(b@, j) && a@.subrange(0, i)
                        == b@.subrange(0, j);
                lemma_base_split_unique(a@, i, ab@.len() as int);
                lemma_base_split_unique(b@, j, bb@.len() as int);
            }
        }
    }
    r
}

/// Character-for-character equality of two string slices.
pub fn str_eq(a: &str, b: &str) -> (r: bool)
    ensures
        r == (a@ == b@),
{
    let al: usize = a.unicode_len();
    let bl: usize = b.unicode_len();
    if al != bl {
        return false;
    }
    let mut i: usize = 0;
    while i < al
        invariant
            al == a@.len(),
            al == b@.len(),
            i <= al,
            forall|k: int| 0 <= k < i ==> a@[k] == b@[k],
        decreases al - i,
    {
        if a.get_char(i) != b.get_char(i) {
            return false;
        }
        i = i + 1;
    }
    assert(a@ =~= b@);
    true
}

/// Whether `s` starts with `p`.
pub fn starts_with_str(s: &str, p: &str) -> (r: bool)
    ensures
        r == matches_at(s@, p@, 0),
{
    let sl: usize = s.unicode_len();
    let pl: usize = p.unicode_len();
    if pl > sl {
        return false;
    }
    let mut j: usize = 0;
    while j < pl
        invariant
            pl <= sl,
            sl == s@.len(),
            pl == p@.len(),
            j <= pl,
            forall|t: int| 0 <= t < j ==> s@[t] == p@[t],
        decreases pl - j,
    {
        if s.get_char(j) != p.get_char(j) {
            return false;
        }
        j = j + 1;
    }
    true
}

/// A URL with a scheme: the input unchanged when it already names one,
/// else the secure scheme prepended.
pub fn normalize_url(url: &str) -> (r: String)
    ensures
        (matches_at(url@, "http://"@, 0) || matches_at(url@, "https://"@, 0)) ==> r@ == url@,
        !(matches_at(url@, "http://"@, 0) || matches_at(url@, "https://"@, 0)) ==> r@ == "https://"@
            + url@,
{
    if starts_with_str(url, "http://") || starts_with_str(url, "https://") {
        url.to_owned()
    } else {
        let mut out = String::new();
        out.append("https://");
        out.append(url);
        proof {
            assert(out@ =~= "https://"@ + url@);
        }
        out
    }
}

/// With no match at or after `i` there is none to find from `i`.
pub proof fn lemma_find_from_none_at(h: Seq<char>, n: Seq<char>, i: int)
    requires
        0 <= i,
        forall|k: int| i <= k ==> !matches_at(h, n, k),
    ensures
        find_from(h, n, i) is None,
    decreases h.len() - i,
{
    if !(i + n.len() > h.len()) {
        lemma_find_from_none_at(h, n, i + 1);
    }
}

/// Position of the first occurrence of `n` in `h` at or after `from`, if
/// any.
pub fn find_substring_from(h: &str, n: &str, from: usize) -> (r: Option<usize>)
    requires
        from <= h@.len(),
    ensures
        match r {
            Some(i) => from <= i && matches_at(h@, n@, i as int) && (forall|k: int|
                from <= k < i ==> !matches_at(h@, n@, k)),
            None => forall|k: int| from <= k ==> !matches_at(h@, n@, k),
        },
{
    let hl: usize = h.unicode_len();
    let nl: usize = n.unicode_len();
    if nl > hl || from > hl - nl {
        assert(forall|k: int| from <= k ==> !matches_at(h@, n@, k));
        return None;
    }
    let mut i: usize = from;
    while i <= hl - nl
        invariant
            nl <= hl,
            hl == h@.len(),
            nl == n@.len(),
            from <= i <= hl - nl + 1,
            forall|k: int| from <= k < i ==> !matches_at(h@, n@, k),
        decreases hl - nl + 1 - i,
    {
        let mut j: usize = 0;
        let mut same = true;
        while j < nl
            invariant
                nl <= hl,
                hl == h@.len(),
                nl == n@.len(),
                i + nl <= hl,
                j <= nl,
                same ==> (forall|t: int| 0 <= t < j ==> h@[i + t] == n@[t]),
                !same ==> !matches_at(h@, n@, i as int),
            decreases nl - j,
        {
            if h.get_char(i + j) != n.get_char(j) {
                same = false;
                j = nl;
            } else {
                j = j + 1;
            }
        }
        if same {
            assert(matches_at(h@, n@, i as int));
            return Some(i);
        }
        i = i + 1;
    }
    assert forall|k: int| from <= k implies !matches_at(h@, n@, k) by {
        if matches_at(h@, n@, k) {
            assert(from <= k <= hl - nl);
        }
    }
    None
}

/// The character of a decimal digit value.
pub open spec fn digit_char(d: int) -> char {
    if d == 0 {
        '0'
    } else if d == 1 {
        '1'
    } else if d == 2 {
        '2'
    } else if d == 3 {
        '3'
    } else if d == 4 {
        '4'
    } else if d == 5 {
        '5'
    } else if d == 6 {
        '6'
    } else if d == 7 {
        '7'
    } else if d == 8 {
        '8'
    } else {
        '9'
    }
}

/// The decimal digits of a nonnegative number, most significant first.
pub open spec fn dec_digits(n: int) -> Seq<char>
    decreases n,
{
    if n < 10 {
        seq![digit_char(n)]
    } else {
        dec_digits(n / 10).push(digit_char(n % 10))
    }
}

/// The one-character string of a digit value.
fn digit_str(d: usize) -> (r: &'static str)
    requires
        d < 10,
    ensures
        r@ == seq![digit_char(d as int)],
{
    proof {
        reveal_strlit("0");
        reveal_strlit("1");
        reveal_strlit("2");
        reveal_strlit("3");
        reveal_strlit("4");
        reveal_strlit("5");
        reveal_strlit("6");
        reveal_strlit("7");
        reveal_strlit("8");
        reveal_strlit("9");
    }
    let r = match d {
        0 => "0",
        1 => "1",
        2 => "2",
        3 => "3",
        4 => "4",
        5 => "5",
        6 => "6",
        7 => "7",
        8 => "8",
        _ => "9",
    };
    proof {
        assert(r@ =~= seq![digit_char(d as int)]);
    }
    r
}

/// Render a number in decimal.
pub fn digits_string(n: usize) -> (r: String)
    ensures
        r@ == dec_digits(n as int),
    decreases n,
{
    if n < 10 {
        digit_str(n).to_owned()
    } else {
        let mut s = digits_string(n / 10);
        s.append(digit_str(n % 10));
        s
    }
}

/// Each character of `s` expanded through `f`, in order.
pub open spec fn expand(s: Seq<char>, f: spec_fn(char) -> Seq<char>) -> Seq<char>
    decreases s.len(),
{
    if s.len() == 0 {
        Seq::empty()
    } else {
        expand(s.drop_last(), f) + f(s.last())
    }
}

/// The expansion rule when text is handed to a shell command as a
/// single-quoted argument: a quote closes the quoting, emits an escaped
/// quote, and reopens it.
pub open spec fn shell_quote_unit(c: char) -> Seq<char> {
    if c == '\'' {
        seq!['\'', '\\', '\'', '\'']
    } else {
        seq![c]
    }
}

/// The expansion rule when text is embedded in a double-quoted script
/// string.
pub open spec fn js_string_unit(c: char) -> Seq<char> {
    if c == '\\' {
        seq!['\\', '\\']
    } else if c == '"' {
        seq!['\\', '"']
    } else if c == '\n' {
        seq!['\\', 'n']
    } else if c == '\r' {
        seq!['\\', 'r']
    } else {
        seq![c]
    }
}

/// The expansion rule when text is embedded in a backtick-quoted script
/// template literal.
pub open spec fn js_template_unit(c: char) -> Seq<char> {
    if c == '\\' {
        seq!['\\', '\\']
    } else if c == '`' {
        seq!['\\', '`']
    } else if c == '$' {
        seq!['\\', '$']
    } else if c == '\n' {
        seq!['\\', 'n']
    } else if c == '\r' {
        seq!['\\', 'r']
    } else if c == '\t' {
        seq!['\\', 't']
    } else {
        seq![c]
    }
}

/// Escape text for use as a single-quoted shell argument.
pub fn escape_single_quotes(s: &str) -> (r: String)
    ensures
        r@ == expand(s@, |c: char| shell_quote_unit(c)),
{
    proof {
        reveal_strlit("'\\''");
    }
    let l: usize = s.unicode_len();
    let mut out = String::new();
    let mut i: usize = 0;
    while i < l
        invariant
            i <= l,
            l == s@.len(),
            out@ == expand(s@.subrange(0, i as int), |c: char| shell_quote_unit(c)),
            "'\\''"@ == seq!['\'', '\\', '\'', '\''],
        decreases l - i,
    {
        proof {
            assert(s@.subrange(0, i + 1).drop_last() =~= s@.subrange(0, i as int));
            assert(s@.subrange(0, i + 1).last() == s@[i as int]);
        }
        let c = s.get_char(i);
        if c == '\'' {
            out.append("'\\''");
        } else {
            let piece = s.substring_char(i, i + 1);
            proof {
                assert(piece@ =~= seq![s@[i as int]]);
            }
            out.append(piece);
        }
        i = i + 1;
    }
    proof {
        assert(s@.subrange(0, l as int) =~= s@);
    }
    out
}

/// Escape text for embedding in a double-quoted script string.
pub fn escape_js_string(s: &str) -> (r: String)
    ensures
        r@ == expand(s@, |c: char| js_string_unit(c)),
{
    proof {
        reveal_strlit("\\\\");
        reveal_strlit("\\\"");
        reveal_strlit("\\n");
        reveal_strlit("\\r");
    }
    let l: usize = s.unicode_len();
    let mut out = String::new();
    let mut i: usize = 0;
    while i < l
        invariant
            i <= l,
            l == s@.len(),
            out@ == expand(s@.subrange(0, i as int), |c: char| js_string_unit(c)),
            "\\\\"@ == seq!['\\', '\\'],
            "\\\""@ == seq!['\\', '"'],
            "\\n"@ == seq!['\\', 'n'],
            "\\r"@ == seq!['\\', 'r'],
        decreases l - i,
    {
        proof {
            assert(s@.subrange(0, i + 1).drop_last() =~= s@.subrange(0, i as int));
            assert(s@.subrange(0, i + 1).last() == s@[i as int]);
        }
        let c = s.get_char(i);
        if c == '\\' {
            out.append("\\\\");
        } else if c == '"' {
            out.append("\\\"");
        } else if c == '\n' {
            out.append("\\n");
        } else if c == '\r' {
            out.append("\\r");
        } else {
            let piece = s.substring_char(i, i + 1);
            proof {
                assert(piece@ =~= seq![s@[i as int]]);
            }
            out.append(piece);
        }
        i = i + 1;
    }
    proof {
        assert(s@.subrange(0, l as int) =~= s@);
    }
    out
}

/// Escape text for embedding in a backtick-quoted script template literal.
pub fn escape_js_template(s: &str) -> (r: String)
    ensures
        r@ == expand(s@, |c: char| js_template_unit(c)),
{
    proof {
        reveal_strlit("\\\\");
        reveal_strlit("\\`");
        reveal_strlit("\\$");
        reveal_strlit("\\n");
        reveal_strlit("\\r");
        reveal_strlit("\\t");
    }
    let l: usize = s.unicode_len();
    let mut out = String::new();
    let mut i: usize = 0;
    while i < l
        invariant
            i <= l,
            l == s@.len(),
            out@ == expand(s@.subrange(0, i as int), |c: char| js_template_unit(c)),
            "\\\\"@ == seq!['\\', '\\'],
            "\\`"@ == seq!['\\', '`'],
            "\\$"@ == seq!['\\', '$'],
            "\\n"@ == seq!['\\', 'n'],
            "\\r"@ == seq!['\\', 'r'],
            "\\t"@ == seq!['\\', 't'],
        decreases l - i,
    {
        proof {
            assert(s@.subrange(0, i + 1).drop_last() =~= s@.subrange(0, i as int));
            assert(s@.subrange(0, i + 1).last() == s@[i as int]);
        }
        let c = s.get_char(i);
        if c == '\\' {
            out.append("\\\\");
        } else if c == '`' {
            out.append("\\`");
        } else if c == '$' {
            out.append("\\$");
        } else if c == '\n' {
            out.append("\\n");
        } else if c == '\r' {
            out.append("\\r");
        } else if c == '\t' {
            out.append("\\t");
        } else {
            let piece = s.substring_char(i, i + 1);
            proof {
                assert(piece@ =~= seq![s@[i as int]]);
            }
            out.append(piece);
        }
        i = i + 1;
    }
    proof {
        assert(s@.subrange(0, l as int) =~= s@);
    }
    out
}

/// A line feed prepended to text. The platform's code editor rejects
/// content that starts at the first line, so every file body is written
/// with one leading blank line.
pub fn prepend_newline(s: &str) -> (r: String)
    ensures
        r@ == seq!['\n'] + s@,
{
    proof {
        reveal_strlit("\n");
    }
    let mut out = String::new();
    out.append("\n");
    out.append(s);
    proof {
        assert(out@ =~= seq!['\n'] + s@);
    }
    out
}

} // verus!
