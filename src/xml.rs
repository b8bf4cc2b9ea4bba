//! Reading single fields out of SOAP message text.
use vstd::prelude::*;
use vstd::string::*;
use crate::text::{chars_of, matches_at, occurs_at};

verus! {

/// Characters that cannot stand in a namespace prefix.
pub open spec fn ends_prefix(c: char) -> bool {
    c == '>' || c == '/' || c == ' ' || c == ':' || c == '\t' || c == '\n' || c == '\r'
}

/// Reading back from index `k` over prefix characters, the index of the `<`
/// that starts the tag, or -1 where another character comes first.
pub open spec fn tag_start_before(d: Seq<char>, k: int) -> int
    decreases k + 1,
{
    if k < 0 || k >= d.len() {
        -1
    } else if d[k] == '<' {
        k
    } else if ends_prefix(d[k]) {
        -1
    } else {
        tag_start_before(d, k - 1)
    }
}

/// An element named `n` (in any namespace prefix) opens at index `i`: the
/// name follows `<`, or a prefix that follows `<` and ends in `:`; and the
/// name is followed by `>` or a space. End tags (`</...`) do not match.
pub open spec fn opens(d: Seq<char>, n: Seq<char>, i: int) -> bool {
    &&& 1 <= i
    &&& d[i - 1] == '<' || (d[i - 1] == ':' && tag_start_before(d, i - 2) >= 0)
    &&& occurs_at(d, n, i)
    &&& i + n.len() < d.len()
    &&& d[i + n.len()] == '>' || d[i + n.len()] == ' '
}

/// `i` is the first index at which an element named `n` opens.
pub open spec fn first_open(d: Seq<char>, n: Seq<char>, i: int) -> bool {
    opens(d, n, i) && forall|k: int| 0 <= k < i ==> !#[trigger] opens(d, n, k)
}

/// `i` is the first index at or after `from` that holds `c`.
pub open spec fn first_char(d: Seq<char>, c: char, from: int, i: int) -> bool {
    &&& from <= i < d.len()
    &&& d[i] == c
    &&& forall|k: int| from <= k < i ==> #[trigger] d[k] != c
}

/// The text inside the first element named `n`: from the end of its start tag
/// to the next `<`, with predefined entities replaced. `None` where there is
/// no such element or it is not closed.
pub open spec fn element_of(d: Seq<char>, n: Seq<char>) -> Option<Seq<char>> {
    if exists|i: int| first_open(d, n, i) {
        let i = choose|i: int| first_open(d, n, i);
        if exists|g: int| #[trigger] first_char(d, '>', i + n.len(), g) {
            let g = choose|g: int| #[trigger] first_char(d, '>', i + n.len(), g);
            if exists|e: int| #[trigger] first_char(d, '<', g + 1, e) {
                let e = choose|e: int| #[trigger] first_char(d, '<', g + 1, e);
                Some(xml_unescaped(d.subrange(g + 1, e)))
            } else {
                None
            }
        } else {
            None
        }
    } else {
        None
    }
}

/// The predefined entity at index `i` of `s`, as the character it stands
/// for and its length.
pub open spec fn entity_at(s: Seq<char>, i: int) -> Option<(char, int)> {
    if occurs_at(s, seq!['&', 'a', 'm', 'p', ';'], i) {
        Some(('&', 5))
    } else if occurs_at(s, seq!['&', 'l', 't', ';'], i) {
        Some(('<', 4))
    } else if occurs_at(s, seq!['&', 'g', 't', ';'], i) {
        Some(('>', 4))
    } else if occurs_at(s, seq!['&', 'q', 'u', 'o', 't', ';'], i) {
        Some(('"', 6))
    } else if occurs_at(s, seq!['&', 'a', 'p', 'o', 's', ';'], i) {
        Some(('\'', 6))
    } else {
        None
    }
}

/// `s` from index `i` on, with each predefined entity replaced by its
/// character. Character references are left as they are.
pub open spec fn unescaped_from(s: Seq<char>, i: int) -> Seq<char>
    decreases s.len() - i,
{
    if i < 0 || i >= s.len() {
        Seq::empty()
    } else {
        match entity_at(s, i) {
            Some((c, n)) => seq![c] + unescaped_from(s, i + n),
            None => seq![s[i]] + unescaped_from(s, i + 1),
        }
    }
}

/// `s` with each predefined entity replaced by its character.
pub open spec fn xml_unescaped(s: Seq<char>) -> Seq<char> {
    unescaped_from(s, 0)
}

fn entity_exec(d: &Vec<char>, i: usize) -> (r: Option<(char, usize)>)
    ensures
        match entity_at(d@, i as int) {
            Some((c, n)) => r == Some((c, n as usize)),
            None => r is None,
        },
{
    let amp: Vec<char> = vec!['&', 'a', 'm', 'p', ';'];
    let lt: Vec<char> = vec!['&', 'l', 't', ';'];
    let gt: Vec<char> = vec!['&', 'g', 't', ';'];
    let quot: Vec<char> = vec!['&', 'q', 'u', 'o', 't', ';'];
    let apos: Vec<char> = vec!['&', 'a', 'p', 'o', 's', ';'];
    assert(amp@ =~= seq!['&', 'a', 'm', 'p', ';']);
    assert(lt@ =~= seq!['&', 'l', 't', ';']);
    assert(gt@ =~= seq!['&', 'g', 't', ';']);
    assert(quot@ =~= seq!['&', 'q', 'u', 'o', 't', ';']);
    assert(apos@ =~= seq!['&', 'a', 'p', 'o', 's', ';']);
    if matches_at(d, &amp, i) {
        Some(('&', 5))
    } else if matches_at(d, &lt, i) {
        Some(('<', 4))
    } else if matches_at(d, &gt, i) {
        Some(('>', 4))
    } else if matches_at(d, &quot, i) {
        Some(('"', 6))
    } else if matches_at(d, &apos, i) {
        Some(('\'', 6))
    } else {
        None
    }
}

/// Replaces each predefined entity of `s` by its character.
pub fn unescape(s: &str) -> (r: String)
    ensures
        r@ == xml_unescaped(s@),
{
    let d = chars_of(s);
    let mut out = String::new();
    let mut i: usize = 0;
    while i < d.len()
        invariant
            d@ == s@,
            i <= d.len(),
            out@ + unescaped_from(d@, i as int) == xml_unescaped(s@),
        decreases d.len() - i,
    {
        let ghost before = out@;
        match entity_exec(&d, i) {
            Some((c, n)) => {
                if c == '&' {
                    out.append("&");
                } else if c == '<' {
                    out.append("<");
                } else if c == '>' {
                    out.append(">");
                } else if c == '"' {
                    out.append("\"");
                } else {
                    out.append("'");
                }
                proof {
                    reveal_strlit("&");
                    reveal_strlit("<");
                    reveal_strlit(">");
                    reveal_strlit("\"");
                    reveal_strlit("'");
                }
                assert(out@ =~= before + seq![c]);
                assert(before + unescaped_from(d@, i as int) =~= out@ + unescaped_from(
                    d@,
                    i + n,
                ));
                i = i + n;
            },
            None => {
                let one = s.substring_char(i, i + 1);
                out.append(one);
                assert(out@ =~= before + seq![d@[i as int]]);
                assert(before + unescaped_from(d@, i as int) =~= out@ + unescaped_from(
                    d@,
                    i + 1,
                ));
                i = i + 1;
            },
        }
    }
    assert(out@ + unescaped_from(d@, i as int) =~= out@);
    out
}

/// Whether an element named `n` opens anywhere in `d`.
pub open spec fn has_element(d: Seq<char>, n: Seq<char>) -> bool {
    exists|i: int| opens(d, n, i)
}

/// Whether reading back from index `end - 1` over prefix characters reaches
/// a `<`.
fn prefix_follows_tag_start(d: &Vec<char>, end: usize) -> (r: bool)
    requires
        end <= d.len(),
    ensures
        r == (tag_start_before(d@, end - 1) >= 0),
{
    let mut k: usize = end;
    while k > 0
        invariant
            k <= end <= d.len(),
            tag_start_before(d@, k - 1) == tag_start_before(d@, end - 1),
        decreases k,
    {
        let c = d[k - 1];
        if c == '<' {
            return true;
        }
        if c == '>' || c == '/' || c == ' ' || c == ':' || c == '\t' || c == '\n' || c == '\r' {
            return false;
        }
        k = k - 1;
    }
    false
}

fn opens_at(d: &Vec<char>, n: &Vec<char>, i: usize) -> (r: bool)
    ensures
        r == opens(d@, n@, i as int),
{
    if i < 1 || i >= d.len() || n.len() >= d.len() - i {
        return false;
    }
    let before = d[i - 1];
    if before != '<' && !(before == ':' && prefix_follows_tag_start(d, i - 1)) {
        return false;
    }
    if !matches_at(d, n, i) {
        return false;
    }
    let after = d[i + n.len()];
    after == '>' || after == ' '
}

/// The first index at or after `from` that holds `c`, if any.
fn find_char(d: &Vec<char>, c: char, from: usize) -> (r: Option<usize>)
    ensures
        match r {
            Some(i) => first_char(d@, c, from as int, i as int),
            None => forall|k: int| from <= k < d.len() ==> d@[k] != c,
        },
{
    let mut i: usize = from;
    while i < d.len()
        invariant
            from <= i,
            forall|k: int| from <= k < i ==> d@[k] != c,
        decreases d.len() - i,
    {
        if d[i] == c {
            return Some(i);
        }
        i = i + 1;
    }
    None
}

/// The first index at which an element named `n` opens, if any.
fn find_open(d: &Vec<char>, n: &Vec<char>) -> (r: Option<usize>)
    ensures
        match r {
            Some(i) => first_open(d@, n@, i as int),
            None => !has_element(d@, n@),
        },
{
    let mut i: usize = 0;
    while i < d.len()
        invariant
            i <= d.len(),
            forall|k: int| 0 <= k < i ==> !#[trigger] opens(d@, n@, k),
        decreases d.len() - i,
    {
        if opens_at(d, n, i) {
            return Some(i);
        }
        i = i + 1;
    }
    assert forall|k: int| !#[trigger] opens(d@, n@, k) by {
        if k >= d.len() {
            assert(!(k + n@.len() < d@.len()));
        }
    }
    None
}

proof fn lemma_first_open_unique(d: Seq<char>, n: Seq<char>, i: int, j: int)
    requires
        first_open(d, n, i),
        first_open(d, n, j),
    ensures
        i == j,
{
    if i < j {
        assert(!opens(d, n, i));
    } else if j < i {
        assert(!opens(d, n, j));
    }
}

proof fn lemma_first_char_unique(d: Seq<char>, c: char, from: int, i: int, j: int)
    requires
        first_char(d, c, from, i),
        first_char(d, c, from, j),
    ensures
        i == j,
{
    if i < j {
        assert(d[i] != c);
    } else if j < i {
        assert(d[j] != c);
    }
}

/// Whether an element named `name` opens in `doc`.
pub fn contains_element(doc: &str, name: &str) -> (r: bool)
    ensures
        r == has_element(doc@, name@),
{
    let d = chars_of(doc);
    let n = chars_of(name);
    find_open(&d, &n).is_some()
}

/// The text inside the first element named `name` (see `element_of`).
pub fn element_text(doc: &str, name: &str) -> (r: Option<String>)
    ensures
        match r {
            Some(t) => element_of(doc@, name@) == Some(t@),
            None => element_of(doc@, name@) is None,
        },
{
    let d = chars_of(doc);
    let n = chars_of(name);
    let i = match find_open(&d, &n) {
        None => {
            assert forall|i: int| !first_open(d@, n@, i) by {
                assert(!opens(d@, n@, i));
            }
            return None;
        },
        Some(i) => i,
    };
    proof {
        assert forall|j: int| first_open(d@, n@, j) implies j == i by {
            lemma_first_open_unique(d@, n@, i as int, j);
        }
    }
    let g = match find_char(&d, '>', i + n.len()) {
        None => {
            return None;
        },
        Some(g) => g,
    };
    assert(g < d.len());
    proof {
        assert forall|j: int| #[trigger] first_char(d@, '>', i + n@.len(), j) implies j == g by {
            lemma_first_char_unique(d@, '>', i + n@.len(), g as int, j);
        }
    }
    let e = match find_char(&d, '<', g + 1) {
        None => {
            return None;
        },
        Some(e) => e,
    };
    proof {
        assert forall|j: int| #[trigger] first_char(d@, '<', g + 1, j) implies j == e by {
            lemma_first_char_unique(d@, '<', g + 1, e as int, j);
        }
    }
    proof {
        assert(first_open(d@, n@, i as int));
        assert(first_char(d@, '>', i + n@.len(), g as int));
        assert(first_char(d@, '<', g + 1, e as int));
        let ci = choose|j: int| first_open(d@, n@, j);
        assert(ci == i);
        let cg = choose|j: int| #[trigger] first_char(d@, '>', ci + n@.len(), j);
        assert(cg == g);
    }
    Some(unescape(doc.substring_char(g + 1, e)))
}

/// The text of the element named `n` that opens at `i`: from the end of its
/// start tag to the next `<`, or `None` where it is not closed.
pub open spec fn text_at(d: Seq<char>, n: Seq<char>, i: int) -> Option<Seq<char>> {
    if exists|g: int| #[trigger] first_char(d, '>', i + n.len(), g) {
        let g = choose|g: int| #[trigger] first_char(d, '>', i + n.len(), g);
        if exists|e: int| #[trigger] first_char(d, '<', g + 1, e) {
            let e = choose|e: int| #[trigger] first_char(d, '<', g + 1, e);
            Some(xml_unescaped(d.subrange(g + 1, e)))
        } else {
            None
        }
    } else {
        None
    }
}

/// The texts of the elements named `n` that open at or after `i`, in order;
/// one that is not closed ends the list.
pub open spec fn texts_from(d: Seq<char>, n: Seq<char>, i: int) -> Seq<Seq<char>>
    decreases d.len() - i,
{
    if i < 0 || i >= d.len() {
        Seq::empty()
    } else if opens(d, n, i) {
        match text_at(d, n, i) {
            Some(t) => seq![t] + texts_from(d, n, i + 1),
            None => Seq::empty(),
        }
    } else {
        texts_from(d, n, i + 1)
    }
}

fn text_at_exec(doc: &str, d: &Vec<char>, n: &Vec<char>, i: usize) -> (r: Option<String>)
    requires
        d@ == doc@,
        opens(d@, n@, i as int),
    ensures
        match r {
            Some(t) => text_at(d@, n@, i as int) == Some(t@),
            None => text_at(d@, n@, i as int) is None,
        },
{
    assert(i + n@.len() < d@.len());
    assert(d@.len() == d.len() && n@.len() == n.len());
    let g = match find_char(d, '>', i + n.len()) {
        None => {
            return None;
        },
        Some(g) => g,
    };
    assert(g < d.len());
    proof {
        assert forall|j: int| #[trigger] first_char(d@, '>', i + n@.len(), j) implies j == g by {
            lemma_first_char_unique(d@, '>', i + n@.len(), g as int, j);
        }
    }
    let e = match find_char(d, '<', g + 1) {
        None => {
            return None;
        },
        Some(e) => e,
    };
    proof {
        assert forall|j: int| #[trigger] first_char(d@, '<', g + 1, j) implies j == e by {
            lemma_first_char_unique(d@, '<', g + 1, e as int, j);
        }
    }
    proof {
        assert(first_char(d@, '>', i + n@.len(), g as int));
        assert(first_char(d@, '<', g + 1, e as int));
        let cg = choose|j: int| #[trigger] first_char(d@, '>', i + n@.len(), j);
        assert(cg == g);
        let ce = choose|j: int| #[trigger] first_char(d@, '<', cg + 1, j);
        assert(ce == e);
    }
    Some(unescape(doc.substring_char(g + 1, e)))
}

/// The texts of all elements named `name`, in the order they open (see
/// `texts_from`).
pub fn element_texts(doc: &str, name: &str) -> (r: Vec<String>)
    ensures
        r@.map_values(|t: String| t@) == texts_from(doc@, name@, 0),
{
    let d = chars_of(doc);
    let n = chars_of(name);
    let mut out: Vec<String> = Vec::new();
    let mut i: usize = 0;
    while i < d.len()
        invariant
            d@ == doc@,
            n@ == name@,
            i <= d.len(),
            out@.map_values(|t: String| t@) + texts_from(d@, n@, i as int) == texts_from(
                d@,
                n@,
                0,
            ),
        decreases d.len() - i,
    {
        if opens_at(&d, &n, i) {
            match text_at_exec(doc, &d, &n, i) {
                None => {
                    assert(texts_from(d@, n@, i as int) =~= Seq::<Seq<char>>::empty());
                    assert(out@.map_values(|t: String| t@) + Seq::<Seq<char>>::empty()
                        =~= out@.map_values(|t: String| t@));
                    return out;
                },
                Some(t) => {
                    let ghost before = out@;
                    let ghost tv = t@;
                    out.push(t);
                    assert(out@.map_values(|t: String| t@) =~= before.map_values(|t: String| t@).push(tv));
                    assert(before.map_values(|t: String| t@) + texts_from(d@, n@, i as int)
                        =~= out@.map_values(|t: String| t@) + texts_from(d@, n@, i + 1));
                },
            }
        }
        i = i + 1;
    }
    assert(texts_from(d@, n@, i as int) =~= Seq::<Seq<char>>::empty());
    assert(out@.map_values(|t: String| t@) + Seq::<Seq<char>>::empty()
        =~= out@.map_values(|t: String| t@));
    out
}

/// The text of the first element named `inner` that opens at or after the
/// first element named `outer` (see `element_of`).
pub open spec fn element_within(d: Seq<char>, outer: Seq<char>, inner: Seq<char>) -> Option<
    Seq<char>,
> {
    if exists|i: int| first_open(d, outer, i) {
        let i = choose|i: int| first_open(d, outer, i);
        element_of(d.subrange(i, d.len() as int), inner)
    } else {
        None
    }
}

/// The text of the first element named `inner` inside (or after) the first
/// element named `outer`.
pub fn element_text_within(doc: &str, outer: &str, inner: &str) -> (r: Option<String>)
    ensures
        match r {
            Some(t) => element_within(doc@, outer@, inner@) == Some(t@),
            None => element_within(doc@, outer@, inner@) is None,
        },
{
    let d = chars_of(doc);
    let o = chars_of(outer);
    match find_open(&d, &o) {
        None => {
            assert forall|i: int| !first_open(d@, o@, i) by {
                assert(!opens(d@, o@, i));
            }
            None
        },
        Some(i) => {
            proof {
                assert forall|j: int| first_open(d@, o@, j) implies j == i by {
                    lemma_first_open_unique(d@, o@, i as int, j);
                }
            }
            let rest = doc.substring_char(i, d.len());
            element_text(rest, inner)
        },
    }
}

} // verus!
