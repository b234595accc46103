//! Intent classifiers: literal system commands, arithmetic expressions and
//! web-search shortcuts.

use vstd::prelude::*;
use crate::strings::{
    chars_of, string_from_chars, lowercase, lower_of, trim_chars, trim_spec, seq_eq_str,
    contains_seq, contains_chars, is_prefix_of, starts_with_chars, push_str_chars, push_tail,
    push_hex_two, hex_two,
};
use crate::model::{ResultKind, ResultView, SearchResultData};
use vstd::utf8::encode_scalar;

verus! {

/// The abstract value of an optional result row.
pub open spec fn opt_row_view(r: Option<SearchResultData>) -> Option<ResultView> {
    match r {
        Some(d) => Some(d@),
        None => None,
    }
}

/// A fixed action row: every field is a literal.
pub open spec fn action_row(name: Seq<char>, description: Seq<char>, path: Seq<char>) -> ResultView {
    ResultView { name, description, path, result_type: ResultKind::Action }
}

/// What `check_special_query` returns: an exact, case-insensitive,
/// trim-normalized match against the fixed system-command vocabulary.
pub open spec fn special_spec(q: Seq<char>) -> Option<ResultView> {
    let n = trim_spec(lower_of(q));
    if n == "lock"@ {
        Some(action_row("Lock Computer"@, "Lock your workstation"@, "lock"@))
    } else if n == "sleep"@ {
        Some(action_row("Sleep"@, "Put computer to sleep"@, "sleep"@))
    } else if n == "restart"@ || n == "reboot"@ {
        Some(action_row("Restart"@, "Restart your computer"@, "restart"@))
    } else if n == "shutdown"@ || n == "shut down"@ {
        Some(action_row("Shutdown"@, "Shut down your computer"@, "shutdown"@))
    } else if n == "logout"@ || n == "sign out"@ || n == "logoff"@ {
        Some(action_row("Sign Out"@, "Sign out of your account"@, "logout"@))
    } else if n == "empty trash"@ || n == "empty recycle bin"@ {
        Some(
            action_row(
                "Empty Recycle Bin"@,
                "Permanently delete items in Recycle Bin"@,
                "emptytrash"@,
            ),
        )
    } else {
        None
    }
}

fn make_action(name: &str, description: &str, path: &str) -> (r: SearchResultData)
    ensures
        r@ == action_row(name@, description@, path@),
{
    SearchResultData {
        name: name.to_owned(),
        description: description.to_owned(),
        path: path.to_owned(),
        result_type: ResultKind::Action,
    }
}

/// Recognise a literal system command: a hard short-circuit that bypasses
/// every other stage.
pub fn check_special_query(query: &str) -> (r: Option<SearchResultData>)
    ensures
        opt_row_view(r) == special_spec(query@),
{
    let ql = lowercase(query);
    let qc = chars_of(ql.as_str());
    let n = trim_chars(&qc);
    if seq_eq_str(&n, "lock") {
        Some(make_action("Lock Computer", "Lock your workstation", "lock"))
    } else if seq_eq_str(&n, "sleep") {
        Some(make_action("Sleep", "Put computer to sleep", "sleep"))
    } else if seq_eq_str(&n, "restart") || seq_eq_str(&n, "reboot") {
        Some(make_action("Restart", "Restart your computer", "restart"))
    } else if seq_eq_str(&n, "shutdown") || seq_eq_str(&n, "shut down") {
        Some(make_action("Shutdown", "Shut down your computer", "shutdown"))
    } else if seq_eq_str(&n, "logout") || seq_eq_str(&n, "sign out") || seq_eq_str(&n, "logoff") {
        Some(make_action("Sign Out", "Sign out of your account", "logout"))
    } else if seq_eq_str(&n, "empty trash") || seq_eq_str(&n, "empty recycle bin") {
        Some(
            make_action(
                "Empty Recycle Bin",
                "Permanently delete items in Recycle Bin",
                "emptytrash",
            ),
        )
    } else {
        None
    }
}

/// Characters that pass through percent-encoding unchanged: ASCII
/// alphanumerics and `- _ . ~`.
pub open spec fn is_unreserved(c: char) -> bool {
    (48 <= c as u32 <= 57) || (65 <= c as u32 <= 90) || (97 <= c as u32 <= 122) || c == '-' || c
        == '_' || c == '.' || c == '~'
}

/// The `%XX` escape of one byte: uppercase, always two digits.
pub open spec fn pct_byte(b: u8) -> Seq<char> {
    seq!['%'] + hex_two(b as nat)
}

/// The `%XX` escapes of a byte sequence, concatenated.
pub open spec fn pct_bytes(bs: Seq<u8>) -> Seq<char>
    decreases bs.len(),
{
    if bs.len() == 0 {
        Seq::empty()
    } else {
        pct_byte(bs[0]) + pct_bytes(bs.skip(1))
    }
}

/// The percent-encoding of one character: the listed shorthands and safe
/// characters aside, every byte of its UTF-8 encoding becomes `%XX`.
pub open spec fn encode_char(c: char) -> Seq<char> {
    if c == ' ' {
        seq!['%', '2', '0']
    } else if c == '&' {
        seq!['%', '2', '6']
    } else if c == '?' {
        seq!['%', '3', 'F']
    } else if c == '=' {
        seq!['%', '3', 'D']
    } else if c == '#' {
        seq!['%', '2', '3']
    } else if c == '+' {
        seq!['%', '2', 'B']
    } else if is_unreserved(c) {
        seq![c]
    } else {
        pct_bytes(encode_scalar(c as u32))
    }
}

/// The UTF-8 bytes of one character, written exactly as `encode_scalar`
/// states them.
fn utf8_bytes_of(c: char) -> (r: Vec<u8>)
    ensures
        r@ == encode_scalar(c as u32),
{
    let u = c as u32;
    let mut r: Vec<u8> = Vec::new();
    if u <= 0x7F {
        r.push((u & 0x7F) as u8);
    } else if u <= 0x7FF {
        r.push(0xC0 | (((u >> 6u32) & 0x1F) as u8));
        r.push(0x80 | ((u & 0x3F) as u8));
    } else if u <= 0xFFFF {
        r.push(0xE0 | (((u >> 12u32) & 0x0F) as u8));
        r.push(0x80 | (((u >> 6u32) & 0x3F) as u8));
        r.push(0x80 | ((u & 0x3F) as u8));
    } else {
        r.push(0xF0 | (((u >> 18u32) & 0x7) as u8));
        r.push(0x80 | (((u >> 12u32) & 0x3F) as u8));
        r.push(0x80 | (((u >> 6u32) & 0x3F) as u8));
        r.push(0x80 | ((u & 0x3F) as u8));
    }
    proof {
        assert(r@ =~= encode_scalar(c as u32));
    }
    r
}

/// Append the `%XX` escape of every byte to `out`.
fn push_pct_all(out: &mut Vec<char>, bs: &Vec<u8>)
    ensures
        final(out)@ == old(out)@ + pct_bytes(bs@),
{
    let mut i: usize = 0;
    proof {
        assert(bs@.skip(0) =~= bs@);
    }
    while i < bs.len()
        invariant
            i <= bs@.len(),
            out@ + pct_bytes(bs@.skip(i as int)) == old(out)@ + pct_bytes(bs@),
        decreases bs@.len() - i,
    {
        proof {
            assert(bs@.skip(i as int)[0] == bs@[i as int]);
            assert(bs@.skip(i as int).skip(1) =~= bs@.skip(i + 1));
        }
        let ghost pre = out@;
        out.push('%');
        push_hex_two(out, bs[i] as u32);
        proof {
            assert(out@ =~= pre + pct_byte(bs@[i as int]));
            assert(pre + (pct_byte(bs@[i as int]) + pct_bytes(bs@.skip(i + 1))) =~= (pre
                + pct_byte(bs@[i as int])) + pct_bytes(bs@.skip(i + 1)));
        }
        i += 1;
    }
    proof {
        assert(pct_bytes(bs@.skip(bs@.len() as int)) =~= Seq::<char>::empty());
        assert(out@ + Seq::<char>::empty() =~= out@);
    }
}

/// The percent-encoding of a character sequence.
pub open spec fn url_encode(s: Seq<char>) -> Seq<char>
    decreases s.len(),
{
    if s.len() == 0 {
        Seq::empty()
    } else {
        encode_char(s[0]) + url_encode(s.skip(1))
    }
}

/// Append the percent-encoding of `v[from..]` to `out`.
fn push_encoded(out: &mut Vec<char>, v: &Vec<char>, from: usize)
    requires
        from <= v@.len(),
    ensures
        final(out)@ == old(out)@ + url_encode(v@.skip(from as int)),
{
    let mut i: usize = from;
    while i < v.len()
        invariant
            from <= i <= v@.len(),
            out@ + url_encode(v@.skip(i as int)) == old(out)@ + url_encode(v@.skip(from as int)),
        decreases v@.len() - i,
    {
        let c = v[i];
        let ghost pre = out@;
        proof {
            assert(v@.skip(i as int)[0] == v@[i as int]);
            assert(v@.skip(i as int).skip(1) =~= v@.skip(i + 1));
        }
        let u = c as u32;
        if c == ' ' {
            out.push('%');
            out.push('2');
            out.push('0');
            proof {
                assert(out@ =~= pre + encode_char(c));
            }
        } else if c == '&' {
            out.push('%');
            out.push('2');
            out.push('6');
            proof {
                assert(out@ =~= pre + encode_char(c));
            }
        } else if c == '?' {
            out.push('%');
            out.push('3');
            out.push('F');
            proof {
                assert(out@ =~= pre + encode_char(c));
            }
        } else if c == '=' {
            out.push('%');
            out.push('3');
            out.push('D');
            proof {
                assert(out@ =~= pre + encode_char(c));
            }
        } else if c == '#' {
            out.push('%');
            out.push('2');
            out.push('3');
            proof {
                assert(out@ =~= pre + encode_char(c));
            }
        } else if c == '+' {
            out.push('%');
            out.push('2');
            out.push('B');
            proof {
                assert(out@ =~= pre + encode_char(c));
            }
        } else if (48 <= u && u <= 57) || (65 <= u && u <= 90) || (97 <= u && u <= 122) || c == '-'
            || c == '_' || c == '.' || c == '~' {
            out.push(c);
            proof {
                assert(out@ =~= pre + encode_char(c));
            }
        } else {
            let bs = utf8_bytes_of(c);
            push_pct_all(out, &bs);
            proof {
                assert(out@ =~= pre + encode_char(c));
            }
        }
        proof {
            assert(pre + (encode_char(v@[i as int]) + url_encode(v@.skip(i + 1))) =~= (pre
                + encode_char(v@[i as int])) + url_encode(v@.skip(i + 1)));
        }
        i += 1;
    }
    proof {
        assert(url_encode(v@.skip(v@.len() as int)) =~= Seq::<char>::empty());
        assert(out@ + Seq::<char>::empty() =~= out@);
    }
}

/// Percent-encode a search term for use in a shortcut URL.
pub fn urlencoding(s: &str) -> (r: String)
    ensures
        r@ == url_encode(s@),
{
    let v = chars_of(s);
    let mut out: Vec<char> = Vec::new();
    proof {
        assert(v@.skip(0) =~= v@);
    }
    push_encoded(&mut out, &v, 0);
    string_from_chars(&out)
}

/// The row a search-engine shortcut produces: the term is echoed in the
/// name and percent-encoded into the URL.
pub open spec fn engine_row(
    label: Seq<char>,
    description: Seq<char>,
    base: Seq<char>,
    term: Seq<char>,
) -> ResultView {
    ResultView {
        name: label + term,
        description,
        path: base + url_encode(term),
        result_type: ResultKind::Web,
    }
}

/// A shortcut prefix applies when the lowercased query starts with it and
/// something follows.
pub open spec fn shortcut_applies(ql: Seq<char>, prefix: Seq<char>) -> bool {
    is_prefix_of(prefix, ql) && ql.len() > prefix.len()
}

/// What `check_web_search` returns: the first applicable shortcut, else a
/// direct URL when the raw query carries an explicit scheme.
pub open spec fn web_spec(q: Seq<char>) -> Option<ResultView> {
    let ql = lower_of(q);
    if shortcut_applies(ql, "g "@) {
        Some(
            engine_row(
                "Search Google: "@,
                "Open Google search in browser"@,
                "https://www.google.com/search?q="@,
                ql.skip(2),
            ),
        )
    } else if shortcut_applies(ql, "google "@) {
        Some(
            engine_row(
                "Search Google: "@,
                "Open Google search in browser"@,
                "https://www.google.com/search?q="@,
                ql.skip(7),
            ),
        )
    } else if shortcut_applies(ql, "yt "@) {
        Some(
            engine_row(
                "Search YouTube: "@,
                "Open YouTube search in browser"@,
                "https://www.youtube.com/results?search_query="@,
                ql.skip(3),
            ),
        )
    } else if shortcut_applies(ql, "youtube "@) {
        Some(
            engine_row(
                "Search YouTube: "@,
                "Open YouTube search in browser"@,
                "https://www.youtube.com/results?search_query="@,
                ql.skip(8),
            ),
        )
    } else if shortcut_applies(ql, "gh "@) {
        Some(
            engine_row(
                "Search GitHub: "@,
                "Open GitHub search in browser"@,
                "https://github.com/search?q="@,
                ql.skip(3),
            ),
        )
    } else if shortcut_applies(ql, "github "@) {
        Some(
            engine_row(
                "Search GitHub: "@,
                "Open GitHub search in browser"@,
                "https://github.com/search?q="@,
                ql.skip(7),
            ),
        )
    } else if shortcut_applies(ql, "wiki "@) {
        Some(
            engine_row(
                "Search Wikipedia: "@,
                "Open Wikipedia search in browser"@,
                "https://en.wikipedia.org/wiki/Special:Search?search="@,
                ql.skip(5),
            ),
        )
    } else if shortcut_applies(ql, "wikipedia "@) {
        Some(
            engine_row(
                "Search Wikipedia: "@,
                "Open Wikipedia search in browser"@,
                "https://en.wikipedia.org/wiki/Special:Search?search="@,
                ql.skip(10),
            ),
        )
    } else if is_prefix_of("http://"@, q) || is_prefix_of("https://"@, q) {
        Some(ResultView { name: "Open URL"@, description: q, path: q, result_type: ResultKind::Web })
    } else {
        None
    }
}

/// Build the row for one applicable shortcut.
fn make_engine_row(label: &str, description: &str, base: &str, ql: &Vec<char>, skip: usize) -> (r:
    SearchResultData)
    requires
        skip <= ql@.len(),
    ensures
        r@ == engine_row(label@, description@, base@, ql@.skip(skip as int)),
{
    let mut name: Vec<char> = Vec::new();
    push_str_chars(&mut name, label);
    push_tail(&mut name, ql, skip);
    let mut url: Vec<char> = Vec::new();
    push_str_chars(&mut url, base);
    push_encoded(&mut url, ql, skip);
    SearchResultData {
        name: string_from_chars(&name),
        description: description.to_owned(),
        path: string_from_chars(&url),
        result_type: ResultKind::Web,
    }
}

/// Recognise a web-search shortcut (`g`, `yt`, `gh`, `wiki` and their long
/// forms) or an explicit URL.
pub fn check_web_search(query: &str) -> (r: Option<SearchResultData>)
    ensures
        opt_row_view(r) == web_spec(query@),
{
    let ql = lowercase(query);
    let qc = chars_of(ql.as_str());
    let g = chars_of("g ");
    proof {
        reveal_strlit("g ");
    }
    if starts_with_chars(&qc, &g) && qc.len() > g.len() {
        return Some(
            make_engine_row(
                "Search Google: ",
                "Open Google search in browser",
                "https://www.google.com/search?q=",
                &qc,
                2,
            ),
        );
    }
    let google = chars_of("google ");
    proof {
        reveal_strlit("google ");
    }
    if starts_with_chars(&qc, &google) && qc.len() > google.len() {
        return Some(
            make_engine_row(
                "Search Google: ",
                "Open Google search in browser",
                "https://www.google.com/search?q=",
                &qc,
                7,
            ),
        );
    }
    let yt = chars_of("yt ");
    proof {
        reveal_strlit("yt ");
    }
    if starts_with_chars(&qc, &yt) && qc.len() > yt.len() {
        return Some(
            make_engine_row(
                "Search YouTube: ",
                "Open YouTube search in browser",
                "https://www.youtube.com/results?search_query=",
                &qc,
                3,
            ),
        );
    }
    let youtube = chars_of("youtube ");
    proof {
        reveal_strlit("youtube ");
    }
    if starts_with_chars(&qc, &youtube) && qc.len() > youtube.len() {
        return Some(
            make_engine_row(
                "Search YouTube: ",
                "Open YouTube search in browser",
                "https://www.youtube.com/results?search_query=",
                &qc,
                8,
            ),
        );
    }
    let gh = chars_of("gh ");
    proof {
        reveal_strlit("gh ");
    }
    if starts_with_chars(&qc, &gh) && qc.len() > gh.len() {
        return Some(
            make_engine_row(
                "Search GitHub: ",
                "Open GitHub search in browser",
                "https://github.com/search?q=",
                &qc,
                3,
            ),
        );
    }
    let github = chars_of("github ");
    proof {
        reveal_strlit("github ");
    }
    if starts_with_chars(&qc, &github) && qc.len() > github.len() {
        return Some(
            make_engine_row(
                "Search GitHub: ",
                "Open GitHub search in browser",
                "https://github.com/search?q=",
                &qc,
                7,
            ),
        );
    }
    let wiki = chars_of("wiki ");
    proof {
        reveal_strlit("wiki ");
    }
    if starts_with_chars(&qc, &wiki) && qc.len() > wiki.len() {
        return Some(
            make_engine_row(
                "Search Wikipedia: ",
                "Open Wikipedia search in browser",
                "https://en.wikipedia.org/wiki/Special:Search?search=",
                &qc,
                5,
            ),
        );
    }
    let wikipedia = chars_of("wikipedia ");
    proof {
        reveal_strlit("wikipedia ");
    }
    if starts_with_chars(&qc, &wikipedia) && qc.len() > wikipedia.len() {
        return Some(
            make_engine_row(
                "Search Wikipedia: ",
                "Open Wikipedia search in browser",
                "https://en.wikipedia.org/wiki/Special:Search?search=",
                &qc,
                10,
            ),
        );
    }
    let raw = chars_of(query);
    let http = chars_of("http://");
    let https = chars_of("https://");
    proof {
        reveal_strlit("http://");
        reveal_strlit("https://");
    }
    if starts_with_chars(&raw, &http) || starts_with_chars(&raw, &https) {
        return Some(
            SearchResultData {
                name: "Open URL".to_owned(),
                description: query.to_owned(),
                path: query.to_owned(),
                result_type: ResultKind::Web,
            },
        );
    }
    None
}


/// The trailing zeros of a printed value, removed.
pub open spec fn strip_zeros(s: Seq<char>) -> Seq<char>
    decreases s.len(),
{
    if s.len() > 0 && s[s.len() - 1] == '0' {
        strip_zeros(s.take(s.len() - 1))
    } else {
        s
    }
}

/// The trailing decimal points of a printed value, removed.
pub open spec fn strip_dots(s: Seq<char>) -> Seq<char>
    decreases s.len(),
{
    if s.len() > 0 && s[s.len() - 1] == '.' {
        strip_dots(s.take(s.len() - 1))
    } else {
        s
    }
}

/// The display form of an evaluated expression: the fixed-decimal print
/// with trailing zeros and then any trailing decimal point removed; a bare
/// negative zero collapses to the plain integer form.
pub open spec fn calc_text(s: Seq<char>) -> Seq<char> {
    let t = strip_dots(strip_zeros(s));
    if t == seq!['-', '0'] {
        seq!['0']
    } else {
        t
    }
}

/// Remove trailing zeros, then trailing decimal points, then the sign of a
/// bare zero.
fn strip_result(v: Vec<char>) -> (r: Vec<char>)
    ensures
        r@ == calc_text(v@),
{
    let mut v = v;
    let ghost orig = v@;
    while v.len() > 0 && v[v.len() - 1] == '0'
        invariant
            strip_zeros(v@) == strip_zeros(orig),
        decreases v@.len(),
    {
        let ghost pre = v@;
        v.pop();
        proof {
            assert(v@ =~= pre.take(pre.len() - 1));
        }
    }
    proof {
        assert(strip_zeros(v@) == v@);
    }
    let ghost mid = v@;
    while v.len() > 0 && v[v.len() - 1] == '.'
        invariant
            strip_dots(v@) == strip_dots(mid),
        decreases v@.len(),
    {
        let ghost pre = v@;
        v.pop();
        proof {
            assert(v@ =~= pre.take(pre.len() - 1));
        }
    }
    proof {
        assert(strip_dots(v@) == v@);
    }
    if v.len() == 2 && v[0] == '-' && v[1] == '0' {
        let mut zero: Vec<char> = Vec::new();
        zero.push('0');
        proof {
            assert(v@ =~= seq!['-', '0']);
            assert(zero@ =~= seq!['0']);
        }
        return zero;
    }
    proof {
        assert(v@ != seq!['-', '0']) by {
            if v@ == seq!['-', '0'] {
                assert(v@.len() == 2 && v@[0] == '-' && v@[1] == '0');
            }
        }
    }
    v
}

/// A character that makes a query look like arithmetic.
pub open spec fn is_math_char(c: char) -> bool {
    c == '+' || c == '-' || c == '*' || c == '/' || c == '^' || c == '(' || c == ')' || c == '%'
}

/// The calculator guard: an operator character somewhere, or a recognized
/// function token.
pub open spec fn has_math(q: Seq<char>) -> bool {
    (exists|k: int| 0 <= k < q.len() && is_math_char(q[k])) || contains_seq(q, "sqrt"@)
        || contains_seq(q, "sin"@) || contains_seq(q, "cos"@)
}

fn has_math_exec(qc: &Vec<char>) -> (r: bool)
    ensures
        r == has_math(qc@),
{
    let mut i: usize = 0;
    while i < qc.len()
        invariant
            i <= qc@.len(),
            forall|j: int| 0 <= j < i ==> !is_math_char(qc@[j]),
        decreases qc@.len() - i,
    {
        let c = qc[i];
        if c == '+' || c == '-' || c == '*' || c == '/' || c == '^' || c == '(' || c == ')' || c
            == '%' {
            proof {
                assert(is_math_char(qc@[i as int]));
            }
            return true;
        }
        i += 1;
    }
    let sqrt = chars_of("sqrt");
    if contains_chars(qc, &sqrt) {
        return true;
    }
    let sin = chars_of("sin");
    if contains_chars(qc, &sin) {
        return true;
    }
    let cos = chars_of("cos");
    if contains_chars(qc, &cos) {
        return true;
    }
    false
}

/// What the expression evaluator produces for a query, printed with six
/// fixed decimals; it depends on the expression string alone.
pub uninterp spec fn eval_fixed_of(s: Seq<char>) -> Option<Seq<char>>;

/// Relies on `meval::eval_str`: the value of an expression is a pure
/// function of the expression string (the default context holds only fixed
/// functions and constants), and a parse or evaluation failure yields
/// `None`. The value is printed with six fixed decimals.
#[verifier::external_body]
fn eval_fixed(query: &str) -> (r: Option<String>)
    ensures
        match r {
            Some(s) => eval_fixed_of(query@) == Some(s@),
            None => eval_fixed_of(query@) is None,
        },
{
    match meval::eval_str(query) {
        Ok(v) => Some(format!("{:.6}", v)),
        Err(_) => None,
    }
}

/// What `try_calculate` returns: nothing unless the query looks like
/// arithmetic and evaluates; otherwise a row echoing the expression and its
/// display form.
pub open spec fn calc_spec(q: Seq<char>) -> Option<ResultView> {
    if q.len() == 0 || !has_math(q) {
        None
    } else {
        match eval_fixed_of(q) {
            Some(s) => {
                let out = calc_text(s);
                Some(
                    ResultView {
                        name: "= "@ + out,
                        description: q + " = "@ + out,
                        path: out,
                        result_type: ResultKind::Calc,
                    },
                )
            },
            None => None,
        }
    }
}

/// Evaluate the query as an arithmetic expression. An evaluator failure is
/// silent: the stage simply contributes nothing.
pub fn try_calculate(query: &str) -> (r: Option<SearchResultData>)
    ensures
        opt_row_view(r) == calc_spec(query@),
{
    if query.is_empty() {
        return None;
    }
    let qc = chars_of(query);
    if !has_math_exec(&qc) {
        return None;
    }
    match eval_fixed(query) {
        Some(s) => {
            let sv = chars_of(s.as_str());
            let out = strip_result(sv);
            let mut name: Vec<char> = Vec::new();
            push_str_chars(&mut name, "= ");
            push_tail(&mut name, &out, 0);
            let mut desc: Vec<char> = Vec::new();
            push_str_chars(&mut desc, query);
            push_str_chars(&mut desc, " = ");
            push_tail(&mut desc, &out, 0);
            proof {
                assert(out@.skip(0) =~= out@);
                assert(query@ + " = "@ + out@ =~= (query@ + " = "@) + out@);
            }
            Some(
                SearchResultData {
                    name: string_from_chars(&name),
                    description: string_from_chars(&desc),
                    path: string_from_chars(&out),
                    result_type: ResultKind::Calc,
                },
            )
        },
        None => None,
    }
}

} // verus!
