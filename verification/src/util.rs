//! Text helpers the renderer is built on: splitting into lines, joining with
//! separators, prefixing lines with comment markers, trimming, and the dotted
//! key-path operations shared by the skeleton builder and the merge engine.

use vstd::prelude::*;
use vstd::string::StrSliceExecFns;
use vstd::string::StringExecFns;

verus! {

broadcast use vstd::seq_lib::group_seq_lib_default, vstd::seq::group_seq_axioms;

/// The characters this library treats as blank space.
pub open spec fn is_ws_char(c: char) -> bool {
    c == ' ' || c == '\t' || c == '\n' || c == '\r'
}

fn is_ws(c: char) -> (r: bool)
    ensures
        r == is_ws_char(c),
{
    c == ' ' || c == '\t' || c == '\n' || c == '\r'
}

/// Whether a text consists of blank space only.
pub open spec fn spec_trim_empty(s: Seq<char>) -> bool {
    forall|i: int| 0 <= i < s.len() ==> is_ws_char(s[i])
}

/// Whether a text, trimmed of leading and trailing blank space, is empty.
pub fn trim_empty(s: &str) -> (r: bool)
    ensures
        r == spec_trim_empty(s@),
{
    let n = s.unicode_len();
    let mut i: usize = 0;
    while i < n
        invariant
            i <= n,
            n == s@.len(),
            forall|j: int| 0 <= j < i ==> is_ws_char(s@[j]),
        decreases n - i,
    {
        if !is_ws(s.get_char(i)) {
            return false;
        }
        i = i + 1;
    }
    true
}

pub open spec fn spec_trim_start(s: Seq<char>) -> Seq<char>
    decreases s.len(),
{
    if s.len() == 0 {
        s
    } else if is_ws_char(s[0]) {
        spec_trim_start(s.skip(1))
    } else {
        s
    }
}

pub open spec fn spec_trim_end(s: Seq<char>) -> Seq<char>
    decreases s.len(),
{
    if s.len() == 0 {
        s
    } else if is_ws_char(s.last()) {
        spec_trim_end(s.drop_last())
    } else {
        s
    }
}

/// The text without its leading and trailing blank space.
pub open spec fn spec_trim(s: Seq<char>) -> Seq<char> {
    spec_trim_end(spec_trim_start(s))
}

proof fn lemma_trim_start_skip(s: Seq<char>, lo: int)
    requires
        0 <= lo <= s.len(),
        forall|j: int| 0 <= j < lo ==> is_ws_char(s[j]),
    ensures
        spec_trim_start(s) == spec_trim_start(s.skip(lo)),
    decreases lo,
{
    if lo > 0 {
        assert(spec_trim_start(s) == spec_trim_start(s.skip(1)));
        assert(s.skip(1).skip(lo - 1) =~= s.skip(lo));
        lemma_trim_start_skip(s.skip(1), lo - 1);
    } else {
        assert(s.skip(0) =~= s);
    }
}

proof fn lemma_trim_end_take(s: Seq<char>, hi: int)
    requires
        0 <= hi <= s.len(),
        forall|j: int| hi <= j < s.len() ==> is_ws_char(s[j]),
    ensures
        spec_trim_end(s) == spec_trim_end(s.take(hi)),
    decreases s.len() - hi,
{
    if hi < s.len() {
        assert(is_ws_char(s.last()));
        assert(spec_trim_end(s) == spec_trim_end(s.drop_last()));
        assert(s.drop_last() =~= s.take(s.len() - 1));
        lemma_trim_end_take(s.take(s.len() - 1), hi);
        assert(s.take(s.len() - 1).take(hi) =~= s.take(hi));
    } else {
        assert(s.take(s.len() as int) =~= s);
    }
}

/// The text with leading and trailing blank space removed.
pub fn trim_str(s: &str) -> (r: String)
    ensures
        r@ == spec_trim(s@),
{
    let n = s.unicode_len();
    let mut lo: usize = 0;
    while lo < n && is_ws(s.get_char(lo))
        invariant
            lo <= n,
            n == s@.len(),
            forall|j: int| 0 <= j < lo ==> is_ws_char(s@[j]),
        decreases n - lo,
    {
        lo = lo + 1;
    }
    proof {
        lemma_trim_start_skip(s@, lo as int);
        if lo < n {
            assert(spec_trim_start(s@.skip(lo as int)) == s@.skip(lo as int));
        } else {
            assert(s@.skip(lo as int) =~= Seq::<char>::empty());
        }
    }
    // now spec_trim_start(s@) == s@.skip(lo)
    let mut hi: usize = n;
    while hi > lo && is_ws(s.get_char(hi - 1))
        invariant
            lo <= hi <= n,
            n == s@.len(),
            forall|j: int| hi <= j < n ==> is_ws_char(s@[j]),
        decreases hi,
    {
        hi = hi - 1;
    }
    let part = s.substring_char(lo, hi);
    proof {
        let t = s@.skip(lo as int);
        lemma_trim_end_take(t, hi - lo);
        assert(t.take(hi - lo) =~= s@.subrange(lo as int, hi as int));
        if hi > lo {
            assert(!is_ws_char(t.take(hi - lo).last()));
            assert(spec_trim_end(t.take(hi - lo)) == t.take(hi - lo));
        } else {
            assert(t.take(hi - lo) =~= Seq::<char>::empty());
        }
    }
    String::from_str(part)
}

/// Whether two texts hold the same characters.
pub fn eq_str(a: &str, b: &str) -> (r: bool)
    ensures
        r == (a@ == b@),
{
    let n = a.unicode_len();
    if n != b.unicode_len() {
        return false;
    }
    let mut i: usize = 0;
    while i < n
        invariant
            i <= n,
            n == a@.len(),
            n == b@.len(),
            forall|j: int| 0 <= j < i ==> a@[j] == b@[j],
        decreases n - i,
    {
        if a.get_char(i) != b.get_char(i) {
            return false;
        }
        i = i + 1;
    }
    proof {
        assert(a@ =~= b@);
    }
    true
}

/// Joining a list of texts with a separator between neighbours.
pub open spec fn spec_join(parts: Seq<Seq<char>>, sep: Seq<char>) -> Seq<char>
    decreases parts.len(),
{
    if parts.len() == 0 {
        Seq::empty()
    } else if parts.len() == 1 {
        parts[0]
    } else {
        parts[0] + sep + spec_join(parts.skip(1), sep)
    }
}

pub proof fn lemma_join_snoc(parts: Seq<Seq<char>>, sep: Seq<char>)
    requires
        parts.len() >= 2,
    ensures
        spec_join(parts, sep) == spec_join(parts.drop_last(), sep) + sep + parts.last(),
    decreases parts.len(),
{
    if parts.len() == 2 {
        assert(parts.skip(1).len() == 1);
        assert(parts.skip(1)[0] == parts[1]);
        assert(parts.drop_last().len() == 1);
        assert(parts.drop_last()[0] == parts[0]);
        assert(spec_join(parts.skip(1), sep) == parts[1]);
        assert(spec_join(parts.drop_last(), sep) == parts[0]);
        assert(spec_join(parts, sep) =~= spec_join(parts.drop_last(), sep) + sep + parts.last());
    } else {
        lemma_join_snoc(parts.skip(1), sep);
        assert(parts.skip(1).drop_last() =~= parts.drop_last().skip(1));
        assert(parts.skip(1).last() == parts.last());
        assert(spec_join(parts.drop_last(), sep) == parts.drop_last()[0] + sep + spec_join(
            parts.drop_last().skip(1),
            sep,
        ));
        assert(parts.drop_last()[0] == parts[0]);
        assert(spec_join(parts, sep) =~= spec_join(parts.drop_last(), sep) + sep + parts.last());
    }
}

/// Joins the given texts, placing `sep` between neighbours.
pub fn join_strings(parts: &Vec<String>, sep: &str) -> (r: String)
    ensures
        r@ == spec_join(parts@.map_values(|p: String| p@), sep@),
{
    let ghost model = parts@.map_values(|p: String| p@);
    let mut r = String::new();
    let mut i: usize = 0;
    while i < parts.len()
        invariant
            i <= parts.len(),
            model == parts@.map_values(|p: String| p@),
            r@ == spec_join(model.take(i as int), sep@),
        decreases parts.len() - i,
    {
        if i > 0 {
            r.append(sep);
        }
        r.append(parts[i].as_str());
        proof {
            let t = model.take(i + 1);
            if i == 0 {
                assert(t.len() == 1);
                assert(t[0] == model[0]);
                assert(r@ =~= spec_join(t, sep@));
            } else {
                lemma_join_snoc(t, sep@);
                assert(t.drop_last() =~= model.take(i as int));
                assert(t.last() == model[i as int]);
                assert(r@ =~= spec_join(t, sep@));
            }
        }
        i = i + 1;
    }
    proof {
        assert(model.take(parts.len() as int) =~= model);
    }
    r
}

/// Splitting a text into lines: lines are separated by `'\n'`, and a final
/// empty line after a trailing `'\n'` is not kept. `cur` is the part of the
/// current line already seen.
pub open spec fn spec_lines_from(cur: Seq<char>, s: Seq<char>) -> Seq<Seq<char>>
    decreases s.len(),
{
    if s.len() == 0 {
        if cur.len() == 0 {
            Seq::empty()
        } else {
            seq![cur]
        }
    } else if s[0] == '\n' {
        seq![cur] + spec_lines_from(Seq::empty(), s.skip(1))
    } else {
        spec_lines_from(cur.push(s[0]), s.skip(1))
    }
}

/// The lines of a text.
pub open spec fn spec_lines(s: Seq<char>) -> Seq<Seq<char>> {
    spec_lines_from(Seq::empty(), s)
}

/// Splits a text into its lines.
pub fn split_lines(s: &str) -> (r: Vec<String>)
    ensures
        r@.map_values(|p: String| p@) == spec_lines(s@),
{
    let n = s.unicode_len();
    let mut r: Vec<String> = Vec::new();
    let mut start: usize = 0;
    let mut i: usize = 0;
    proof {
        assert(s@.subrange(0, 0) =~= Seq::<char>::empty());
        assert(s@.skip(0) =~= s@);
        assert(r@.map_values(|p: String| p@) + spec_lines_from(Seq::empty(), s@) =~= spec_lines(
            s@,
        ));
    }
    while i < n
        invariant
            start <= i <= n,
            n == s@.len(),
            forall|j: int| start <= j < i ==> s@[j] != '\n',
            spec_lines(s@) == r@.map_values(|p: String| p@) + spec_lines_from(
                s@.subrange(start as int, i as int),
                s@.skip(i as int),
            ),
        decreases n - i,
    {
        let c = s.get_char(i);
        if c == '\n' {
            let line = String::from_str(s.substring_char(start, i));
            proof {
                let cur = s@.subrange(start as int, i as int);
                let rest = s@.skip(i as int);
                assert(rest[0] == '\n');
                assert(rest.skip(1) =~= s@.skip(i + 1));
                assert(spec_lines_from(cur, rest) == seq![cur] + spec_lines_from(
                    Seq::empty(),
                    s@.skip(i + 1),
                ));
                assert(Seq::<char>::empty() =~= s@.subrange(i + 1, i + 1));
                assert((r@ + seq![line]).map_values(|p: String| p@) =~= r@.map_values(
                    |p: String| p@,
                ) + seq![cur]);
            }
            r.push(line);
            start = i + 1;
        } else {
            proof {
                let cur = s@.subrange(start as int, i as int);
                let rest = s@.skip(i as int);
                assert(rest[0] == s@[i as int]);
                assert(rest.skip(1) =~= s@.skip(i + 1));
                assert(cur.push(s@[i as int]) =~= s@.subrange(start as int, i + 1));
            }
        }
        i = i + 1;
    }
    if start < n {
        let line = String::from_str(s.substring_char(start, n));
        proof {
            let cur = s@.subrange(start as int, n as int);
            assert(s@.skip(n as int).len() == 0);
            assert(cur.len() > 0);
            assert(spec_lines_from(cur, s@.skip(n as int)) =~= seq![cur]);
            assert((r@ + seq![line]).map_values(|p: String| p@) =~= r@.map_values(|p: String| p@)
                + seq![cur]);
        }
        r.push(line);
    } else {
        proof {
            let cur = s@.subrange(start as int, n as int);
            assert(cur.len() == 0);
            assert(s@.skip(n as int).len() == 0);
            assert(spec_lines_from(cur, s@.skip(n as int)) =~= Seq::<Seq<char>>::empty());
            assert(r@.map_values(|p: String| p@) + Seq::<Seq<char>>::empty() =~= r@.map_values(
                |p: String| p@,
            ));
        }
    }
    r
}

/// Each line of `text`, prefixed with `prefix`, joined back with `'\n'`.
pub open spec fn spec_prefix_lines(text: Seq<char>, prefix: Seq<char>) -> Seq<char> {
    spec_join(spec_lines(text).map_values(|l: Seq<char>| prefix + l), seq!['\n'])
}

/// Prefixes every line of `text` with `prefix`.
pub fn prefix_lines(text: &str, prefix: &str) -> (r: String)
    ensures
        r@ == spec_prefix_lines(text@, prefix@),
{
    let lines = split_lines(text);
    let ghost model = spec_lines(text@).map_values(|l: Seq<char>| prefix@ + l);
    let nl = newline_str();
    let mut r = String::new();
    let mut i: usize = 0;
    while i < lines.len()
        invariant
            i <= lines.len(),
            lines@.map_values(|p: String| p@) == spec_lines(text@),
            model == spec_lines(text@).map_values(|l: Seq<char>| prefix@ + l),
            nl@ == seq!['\n'],
            r@ == spec_join(model.take(i as int), seq!['\n']),
        decreases lines.len() - i,
    {
        if i > 0 {
            r.append(nl);
        }
        r.append(prefix);
        r.append(lines[i].as_str());
        proof {
            let t = model.take(i + 1);
            assert(model[i as int] == prefix@ + lines@.map_values(|p: String| p@)[i as int]);
            if i == 0 {
                assert(t.len() == 1);
                assert(t[0] == model[0]);
                assert(r@ =~= spec_join(t, seq!['\n']));
            } else {
                lemma_join_snoc(t, seq!['\n']);
                assert(t.drop_last() =~= model.take(i as int));
                assert(t.last() == model[i as int]);
                assert(r@ =~= spec_join(t, seq!['\n']));
            }
        }
        i = i + 1;
    }
    proof {
        assert(model.take(lines.len() as int) =~= model);
    }
    r
}

/// The documentation-comment marker.
pub open spec fn comment_seq() -> Seq<char> {
    seq!['#']
}

/// The marker of a present-but-inactive line.
pub open spec fn bang_comment_seq() -> Seq<char> {
    seq!['#', '!']
}

/// The separator of key-path segments.
pub open spec fn tag_seq() -> Seq<char> {
    seq!['.']
}

pub fn comment_str() -> (r: &'static str)
    ensures
        r@ == comment_seq(),
{
    let s = "#";
    proof {
        reveal_strlit("#");
        assert(s@ =~= comment_seq());
    }
    s
}

pub fn bang_comment_str() -> (r: &'static str)
    ensures
        r@ == bang_comment_seq(),
{
    let s = "#!";
    proof {
        reveal_strlit("#!");
        assert(s@ =~= bang_comment_seq());
    }
    s
}

pub fn tag_str() -> (r: &'static str)
    ensures
        r@ == tag_seq(),
{
    let s = ".";
    proof {
        reveal_strlit(".");
        assert(s@ =~= tag_seq());
    }
    s
}

pub(crate) fn newline_str() -> (r: &'static str)
    ensures
        r@ == seq!['\n'],
{
    let s = "\n";
    proof {
        reveal_strlit("\n");
        assert(s@ =~= seq!['\n']);
    }
    s
}

/// Every line of `text` prefixed with the comment marker.
pub open spec fn spec_comment_lines(text: Seq<char>) -> Seq<char> {
    spec_prefix_lines(text, comment_seq())
}

/// Prefixes every line of `text` with the comment marker `#`.
pub fn comment_lines(text: &str) -> (r: String)
    ensures
        r@ == spec_comment_lines(text@),
{
    prefix_lines(text, comment_str())
}

/// The text followed by a line break, unless it is blank.
pub open spec fn spec_append_line(text: Seq<char>) -> Seq<char> {
    if spec_trim_empty(text) {
        text
    } else {
        text + seq!['\n']
    }
}

/// Appends a line break unless the text is blank.
pub fn append_line(text: &mut String)
    ensures
        final(text)@ == spec_append_line(old(text)@),
{
    if !trim_empty(text.as_str()) {
        text.append(newline_str());
    }
}

/// The trimmed key without a leading segment separator.
pub open spec fn spec_remove_prefix_tag(key: Seq<char>) -> Seq<char> {
    let t = spec_trim(key);
    if t.len() > 0 && t[0] == '.' {
        t.skip(1)
    } else {
        t
    }
}

/// Trims the key and strips one leading `.`, if any.
pub fn remove_prefix_tag(key: &str) -> (r: String)
    ensures
        r@ == spec_remove_prefix_tag(key@),
{
    let t = trim_str(key);
    let n = t.as_str().unicode_len();
    if n > 0 && t.as_str().get_char(0) == '.' {
        let part = t.as_str().substring_char(1, n);
        proof {
            assert(t@.subrange(1, n as int) =~= t@.skip(1));
        }
        String::from_str(part)
    } else {
        t
    }
}

/// A key extended with a new leading segment: `ident` alone when the key is
/// empty, otherwise `ident`, the separator, and the old key.
pub open spec fn spec_increase_key(key: Seq<char>, ident: Seq<char>) -> Seq<char> {
    if key.len() == 0 {
        ident
    } else {
        ident + tag_seq() + key
    }
}

/// Prepends `ident` as a new leading key segment.
pub fn increase_key(key: &mut String, ident: &str)
    ensures
        final(key)@ == spec_increase_key(old(key)@, ident@),
{
    if key.as_str().unicode_len() == 0 {
        proof {
            assert(old(key)@.len() == 0);
        }
        *key = String::from_str(ident);
    } else {
        let mut n = String::from_str(ident);
        n.append(tag_str());
        n.append(key.as_str());
        *key = n;
    }
}

/// The parent of a dotted key path: everything before the last separator,
/// or the empty key when the key has no separator.
pub open spec fn spec_key_parent(key: Seq<char>) -> Seq<char>
    decreases key.len(),
{
    if key.len() == 0 {
        key
    } else if key.last() == '.' {
        key.drop_last()
    } else {
        spec_key_parent(key.drop_last())
    }
}

/// The parent path of a dotted key.
pub fn key_parent(key: &str) -> (r: String)
    ensures
        r@ == spec_key_parent(key@),
{
    let n = key.unicode_len();
    let mut i: usize = n;
    proof {
        assert(key@.take(n as int) =~= key@);
    }
    while i > 0
        invariant
            i <= n,
            n == key@.len(),
            spec_key_parent(key@) == spec_key_parent(key@.take(i as int)),
        decreases i,
    {
        proof {
            assert(key@.take(i as int).drop_last() =~= key@.take(i - 1));
        }
        if key.get_char(i - 1) == '.' {
            let part = key.substring_char(0, i - 1);
            proof {
                assert(key@.take(i as int).last() == key@[i - 1]);
                assert(key@.subrange(0, i - 1) =~= key@.take(i as int).drop_last());
            }
            return String::from_str(part);
        }
        i = i - 1;
    }
    proof {
        assert(key@.take(0) =~= Seq::<char>::empty());
    }
    String::new()
}

/// Joining only the lines that are not blank.
pub open spec fn spec_join_nonblank(parts: Seq<Seq<char>>, sep: Seq<char>) -> Seq<char> {
    spec_join(parts.filter(|l: Seq<char>| !spec_trim_empty(l)), sep)
}

/// Joins the given texts with `sep`, leaving out the blank ones.
pub fn join_nonblank(parts: &Vec<String>, sep: &str) -> (r: String)
    ensures
        r@ == spec_join_nonblank(parts@.map_values(|p: String| p@), sep@),
{
    let ghost model = parts@.map_values(|p: String| p@);
    let ghost pred = |l: Seq<char>| !spec_trim_empty(l);
    let mut r = String::new();
    let mut first: bool = true;
    let mut i: usize = 0;
    proof {
        assert(model.take(0) =~= Seq::<Seq<char>>::empty());
        assert(Seq::<Seq<char>>::empty().filter(pred) =~= Seq::<Seq<char>>::empty());
    }
    while i < parts.len()
        invariant
            i <= parts.len(),
            model == parts@.map_values(|p: String| p@),
            model.len() == parts@.len(),
            pred == (|l: Seq<char>| !spec_trim_empty(l)),
            r@ == spec_join(model.take(i as int).filter(pred), sep@),
            first == (model.take(i as int).filter(pred).len() == 0),
        decreases parts.len() - i,
    {
        let ghost fprev = model.take(i as int).filter(pred);
        proof {
            let t = model.take(i + 1);
            assert(t.drop_last() =~= model.take(i as int));
            assert(t.last() == model[i as int]);
            reveal_with_fuel(Seq::filter, 2);
            if pred(model[i as int]) {
                assert(t.filter(pred) =~= fprev.push(model[i as int]));
            } else {
                assert(t.filter(pred) =~= fprev);
            }
        }
        if !trim_empty(parts[i].as_str()) {
            if !first {
                r.append(sep);
            }
            r.append(parts[i].as_str());
            first = false;
            proof {
                let f = model.take(i + 1).filter(pred);
                if fprev.len() == 0 {
                    assert(f =~= seq![model[i as int]]);
                    assert(r@ =~= spec_join(f, sep@));
                } else {
                    lemma_join_snoc(f, sep@);
                    assert(f.drop_last() =~= fprev);
                    assert(f.last() == model[i as int]);
                    assert(r@ =~= spec_join(f, sep@));
                }
            }
        }
        i = i + 1;
    }
    proof {
        assert(model.take(parts.len() as int) =~= model);
    }
    r
}

/// The text of a `key = value` assignment line, with the inactive marker in
/// front when the line is commented out.
pub open spec fn spec_assign_line(commented: bool, ident: Seq<char>, value: Seq<char>) -> Seq<char> {
    (if commented {
        bang_comment_seq()
    } else {
        Seq::empty()
    }) + ident + seq![' ', '=', ' '] + value
}

pub fn eq_sep_str() -> (r: &'static str)
    ensures
        r@ == seq![' ', '=', ' '],
{
    let s = " = ";
    proof {
        reveal_strlit(" = ");
        assert(s@ =~= seq![' ', '=', ' ']);
    }
    s
}

/// Builds a `key = value` assignment line.
pub fn assign_line(commented: bool, ident: &str, value: &str) -> (r: String)
    ensures
        r@ == spec_assign_line(commented, ident@, value@),
{
    let mut r = if commented {
        String::from_str(bang_comment_str())
    } else {
        String::new()
    };
    r.append(ident);
    r.append(eq_sep_str());
    r.append(value);
    proof {
        assert(r@ =~= spec_assign_line(commented, ident@, value@));
    }
    r
}

} // verus!
