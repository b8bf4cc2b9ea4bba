//! Whether a message text is a well-formed document: one root element, every
//! start tag closed by an end tag of the same name in order, attributes
//! written `name="value"`, and every `&` the start of a reference.
//! Processing instructions, comments and empty-element tags stand alone.
use vstd::prelude::*;
use crate::text::chars_of;

verus! {

/// Characters that end a tag's name.
pub open spec fn ends_name(c: char) -> bool {
    c == ' ' || c == '\t' || c == '\n' || c == '\r'
}

/// The length of the name at the start of a tag's text, counting from `k`.
pub open spec fn name_len(t: Seq<char>, k: int) -> int
    decreases t.len() - k,
{
    if k < 0 || k >= t.len() || ends_name(t[k]) {
        k
    } else {
        name_len(t, k + 1)
    }
}

/// The name at the start of a tag's text.
pub open spec fn tag_name(t: Seq<char>) -> Seq<char> {
    t.take(name_len(t, 0))
}

/// Characters that may stand in an element or attribute name.
pub open spec fn name_char(c: char) -> bool {
    &&& !ends_name(c)
    &&& c != '<' && c != '>' && c != '&' && c != '=' && c != '"' && c != '\'' && c != '/'
}

/// The first index at or after `k` that holds `;`, or the length of `d`.
pub open spec fn semi_from(d: Seq<char>, k: int) -> int
    decreases d.len() - k,
{
    if k < 0 || k >= d.len() {
        d.len() as int
    } else if d[k] == ';' {
        k
    } else {
        semi_from(d, k + 1)
    }
}

/// Decimal digits, at least one.
pub open spec fn decimal_digits(s: Seq<char>) -> bool {
    s.len() > 0 && forall|i: int| 0 <= i < s.len() ==> '0' <= #[trigger] s[i] <= '9'
}

/// Hexadecimal digits, at least one.
pub open spec fn hex_digits(s: Seq<char>) -> bool {
    s.len() > 0 && forall|i: int|
        0 <= i < s.len() ==> ('0' <= #[trigger] s[i] <= '9' || 'a' <= s[i] <= 'f' || 'A' <= s[i]
            <= 'F')
}

/// What may stand between `&` and `;`: a predefined entity, or a decimal
/// or hexadecimal character reference.
pub open spec fn reference_body(s: Seq<char>) -> bool {
    ||| s == "amp"@
    ||| s == "lt"@
    ||| s == "gt"@
    ||| s == "quot"@
    ||| s == "apos"@
    ||| s.len() > 0 && s[0] == '#' && decimal_digits(s.drop_first())
    ||| s.len() > 1 && s[0] == '#' && s[1] == 'x' && hex_digits(s.subrange(2, s.len() as int))
}

/// The `&` at index `k` starts a reference that a `;` ends.
pub open spec fn reference_at(d: Seq<char>, k: int) -> bool {
    let j = semi_from(d, k + 1);
    j < d.len() && reference_body(d.subrange(k + 1, j))
}

/// Whether the rest of a start tag's text, from index `k`, is a list of
/// `name="value"` (or `name='value'`) attributes, each after white space.
/// `st` is where the scan stands: 0 after a name or a value, 1 in white
/// space, 2 in an attribute name, 3 after its `=`, 4 and 5 in a value quoted
/// with `"` and `'`. A value holds no `<`, and each `&` in it starts a reference.
pub open spec fn attrs_from(b: Seq<char>, k: int, st: int) -> bool
    decreases b.len() - k,
{
    if k < 0 || k >= b.len() {
        st == 0 || st == 1
    } else {
        let c = b[k];
        if st == 0 {
            ends_name(c) && attrs_from(b, k + 1, 1)
        } else if st == 1 {
            if ends_name(c) {
                attrs_from(b, k + 1, 1)
            } else {
                name_char(c) && attrs_from(b, k + 1, 2)
            }
        } else if st == 2 {
            if c == '=' {
                attrs_from(b, k + 1, 3)
            } else {
                name_char(c) && attrs_from(b, k + 1, 2)
            }
        } else if st == 3 {
            if c == '"' {
                attrs_from(b, k + 1, 4)
            } else {
                c == '\'' && attrs_from(b, k + 1, 5)
            }
        } else if (st == 4 && c == '"') || (st == 5 && c == '\'') {
            attrs_from(b, k + 1, 0)
        } else if c == '<' {
            false
        } else if c == '&' {
            reference_at(b, k) && attrs_from(b, k + 1, st)
        } else {
            attrs_from(b, k + 1, st)
        }
    }
}

/// Only white space.
pub open spec fn all_space(s: Seq<char>) -> bool {
    forall|i: int| 0 <= i < s.len() ==> ends_name(#[trigger] s[i])
}

/// Only name characters, at least one.
pub open spec fn valid_name(s: Seq<char>) -> bool {
    s.len() > 0 && forall|i: int| 0 <= i < s.len() ==> name_char(#[trigger] s[i])
}

/// The tag's text is a start or empty-element tag.
pub open spec fn starts_element(t: Seq<char>) -> bool {
    !(t.len() > 0 && (t[0] == '?' || t[0] == '!' || t[0] == '/'))
}

/// The open elements after the tag whose text (between `<` and `>`) is `t`,
/// or `None` where the tag is malformed or does not fit them. Processing
/// instructions (`<?...?>`) and comments (`<!--...-->`) leave them as they
/// are; other `<!` declarations are not accepted.
pub open spec fn apply_tag(t: Seq<char>, stack: Seq<Seq<char>>) -> Option<Seq<Seq<char>>> {
    if t.len() > 0 && t[0] == '?' {
        if t.len() >= 2 && t.last() == '?' {
            Some(stack)
        } else {
            None
        }
    } else if t.len() > 0 && t[0] == '!' {
        if t.len() >= 5 && t.subrange(0, 3) == "!--"@ && t.subrange(t.len() - 2, t.len() as int)
            == "--"@ {
            Some(stack)
        } else {
            None
        }
    } else if t.len() > 0 && t[0] == '/' {
        let u = t.drop_first();
        let n = tag_name(u);
        if valid_name(n) && all_space(u.subrange(n.len() as int, u.len() as int)) && stack.len()
            > 0 && stack.last() == n {
            Some(stack.drop_last())
        } else {
            None
        }
    } else {
        let empty = t.len() > 0 && t.last() == '/';
        let b = if empty {
            t.drop_last()
        } else {
            t
        };
        let n = tag_name(b);
        if valid_name(n) && attrs_from(b, n.len() as int, 0) {
            if empty {
                Some(stack)
            } else {
                Some(stack.push(n))
            }
        } else {
            None
        }
    }
}

/// Whether the text from index `i` on completes a well-formed document,
/// given the open elements `stack`, the index `open` of the `<` of a tag
/// being read (or -1), and whether the root element has begun. Outside the
/// root only white space stands between tags, and each `&` in text starts a
/// reference.
pub open spec fn nests_from(
    d: Seq<char>,
    i: int,
    stack: Seq<Seq<char>>,
    open: int,
    rooted: bool,
) -> bool
    decreases d.len() - i,
{
    if i < 0 || i >= d.len() {
        open < 0 && stack.len() == 0 && rooted
    } else if open < 0 {
        if d[i] == '<' {
            nests_from(d, i + 1, stack, i, rooted)
        } else if stack.len() == 0 && !ends_name(d[i]) {
            false
        } else if d[i] == '&' && !reference_at(d, i) {
            false
        } else {
            nests_from(d, i + 1, stack, -1, rooted)
        }
    } else if d[i] != '>' {
        nests_from(d, i + 1, stack, open, rooted)
    } else {
        let t = d.subrange(open + 1, i);
        if stack.len() == 0 && starts_element(t) && rooted {
            false
        } else {
            match apply_tag(t, stack) {
                Some(s) => nests_from(d, i + 1, s, -1, rooted || starts_element(t)),
                None => false,
            }
        }
    }
}

/// Whether `d` is a well-formed document: one root element whose tags nest
/// properly, with well-formed tags, attributes and references.
pub open spec fn well_formed(d: Seq<char>) -> bool {
    nests_from(d, 0, Seq::empty(), -1, false)
}

/// The names held by a stack of open elements.
pub open spec fn names(stack: Seq<Vec<char>>) -> Seq<Seq<char>> {
    stack.map_values(|v: Vec<char>| v@)
}

fn slice_chars(v: &Vec<char>, a: usize, b: usize) -> (r: Vec<char>)
    requires
        a <= b <= v.len(),
    ensures
        r@ == v@.subrange(a as int, b as int),
{
    let mut out: Vec<char> = Vec::new();
    let mut k: usize = a;
    while k < b
        invariant
            a <= k <= b <= v.len(),
            out@ == v@.subrange(a as int, k as int),
        decreases b - k,
    {
        out.push(v[k]);
        assert(v@.subrange(a as int, k + 1) =~= v@.subrange(a as int, k as int).push(v@[k as int]));
        k = k + 1;
    }
    out
}

fn same_chars(a: &Vec<char>, b: &Vec<char>) -> (r: bool)
    ensures
        r == (a@ == b@),
{
    if a.len() != b.len() {
        return false;
    }
    let mut k: usize = 0;
    while k < a.len()
        invariant
            a.len() == b.len(),
            k <= a.len(),
            forall|j: int| 0 <= j < k ==> a@[j] == b@[j],
        decreases a.len() - k,
    {
        if a[k] != b[k] {
            return false;
        }
        k = k + 1;
    }
    assert(a@ =~= b@);
    true
}

fn name_of(t: &Vec<char>, from: usize) -> (r: Vec<char>)
    requires
        from <= t.len(),
    ensures
        r@ == tag_name(t@.subrange(from as int, t.len() as int)),
{
    let ghost u = t@.subrange(from as int, t.len() as int);
    let mut k: usize = from;
    while k < t.len() && !(t[k] == ' ' || t[k] == '\t' || t[k] == '\n' || t[k] == '\r')
        invariant
            from <= k <= t.len(),
            u == t@.subrange(from as int, t.len() as int),
            name_len(u, k - from) == name_len(u, 0),
        decreases t.len() - k,
    {
        k = k + 1;
    }
    let r = slice_chars(t, from, k);
    assert(r@ =~= u.take(k - from));
    r
}

fn is_space(c: char) -> (r: bool)
    ensures
        r == ends_name(c),
{
    c == ' ' || c == '\t' || c == '\n' || c == '\r'
}

fn is_name_char(c: char) -> (r: bool)
    ensures
        r == name_char(c),
{
    !is_space(c) && c != '<' && c != '>' && c != '&' && c != '=' && c != '"' && c != '\'' && c
        != '/'
}

fn digits_from(s: &Vec<char>, from: usize, hex: bool) -> (r: bool)
    requires
        from <= s.len(),
    ensures
        r == if hex {
            hex_digits(s@.subrange(from as int, s.len() as int))
        } else {
            decimal_digits(s@.subrange(from as int, s.len() as int))
        },
{
    if from == s.len() {
        return false;
    }
    let ghost u = s@.subrange(from as int, s.len() as int);
    let mut k: usize = from;
    while k < s.len()
        invariant
            from <= k <= s.len(),
            u == s@.subrange(from as int, s.len() as int),
            forall|j: int|
                from <= j < k ==> if hex {
                    '0' <= #[trigger] s@[j] <= '9' || 'a' <= s@[j] <= 'f' || 'A' <= s@[j] <= 'F'
                } else {
                    '0' <= s@[j] <= '9'
                },
        decreases s.len() - k,
    {
        let c = s[k];
        let ok = ('0' <= c && c <= '9') || (hex && (('a' <= c && c <= 'f') || ('A' <= c && c
            <= 'F')));
        if !ok {
            assert(u[k - from] == c);
            return false;
        }
        k = k + 1;
    }
    assert forall|j: int| 0 <= j < u.len() implies if hex {
        '0' <= #[trigger] u[j] <= '9' || 'a' <= u[j] <= 'f' || 'A' <= u[j] <= 'F'
    } else {
        '0' <= u[j] <= '9'
    } by {
        assert(u[j] == s@[j + from]);
    }
    true
}

fn is_reference_body(s: &Vec<char>) -> (r: bool)
    ensures
        r == reference_body(s@),
{
    if same_chars(s, &chars_of("amp")) || same_chars(s, &chars_of("lt")) || same_chars(
        s,
        &chars_of("gt"),
    ) || same_chars(s, &chars_of("quot")) || same_chars(s, &chars_of("apos")) {
        return true;
    }
    if s.len() > 0 && s[0] == '#' {
        assert(s@.subrange(1, s@.len() as int) =~= s@.drop_first());
        if digits_from(s, 1, false) {
            return true;
        }
        if s.len() > 1 && s[1] == 'x' {
            return digits_from(s, 2, true);
        }
    }
    false
}

fn reference_ok(d: &Vec<char>, k: usize) -> (r: bool)
    requires
        k < d.len(),
    ensures
        r == reference_at(d@, k as int),
{
    let mut j: usize = k + 1;
    while j < d.len() && d[j] != ';'
        invariant
            k + 1 <= j <= d.len(),
            semi_from(d@, j as int) == semi_from(d@, k + 1),
        decreases d.len() - j,
    {
        j = j + 1;
    }
    if j >= d.len() {
        return false;
    }
    let body = slice_chars(d, k + 1, j);
    is_reference_body(&body)
}

fn attrs_ok(b: &Vec<char>, from: usize) -> (r: bool)
    requires
        from <= b.len(),
    ensures
        r == attrs_from(b@, from as int, 0),
{
    let mut k: usize = from;
    let mut st: u8 = 0;
    while k < b.len()
        invariant
            from <= k <= b.len(),
            st <= 5,
            attrs_from(b@, k as int, st as int) == attrs_from(b@, from as int, 0),
        decreases b.len() - k,
    {
        let c = b[k];
        if st == 0 {
            if !is_space(c) {
                return false;
            }
            st = 1;
        } else if st == 1 {
            if !is_space(c) {
                if !is_name_char(c) {
                    return false;
                }
                st = 2;
            }
        } else if st == 2 {
            if c == '=' {
                st = 3;
            } else if !is_name_char(c) {
                return false;
            }
        } else if st == 3 {
            if c == '"' {
                st = 4;
            } else if c == '\'' {
                st = 5;
            } else {
                return false;
            }
        } else if (st == 4 && c == '"') || (st == 5 && c == '\'') {
            st = 0;
        } else if c == '<' {
            return false;
        } else if c == '&' {
            if !reference_ok(b, k) {
                return false;
            }
        }
        k = k + 1;
    }
    st == 0 || st == 1
}

fn spaces_from(s: &Vec<char>, from: usize) -> (r: bool)
    requires
        from <= s.len(),
    ensures
        r == all_space(s@.subrange(from as int, s.len() as int)),
{
    let ghost u = s@.subrange(from as int, s.len() as int);
    let mut k: usize = from;
    while k < s.len()
        invariant
            from <= k <= s.len(),
            u == s@.subrange(from as int, s.len() as int),
            forall|j: int| from <= j < k ==> ends_name(#[trigger] s@[j]),
        decreases s.len() - k,
    {
        if !is_space(s[k]) {
            assert(u[k - from] == s@[k as int]);
            return false;
        }
        k = k + 1;
    }
    assert forall|j: int| 0 <= j < u.len() implies ends_name(#[trigger] u[j]) by {
        assert(u[j] == s@[j + from]);
    }
    true
}

fn is_valid_name(s: &Vec<char>) -> (r: bool)
    ensures
        r == valid_name(s@),
{
    if s.len() == 0 {
        return false;
    }
    let mut k: usize = 0;
    while k < s.len()
        invariant
            k <= s.len(),
            forall|j: int| 0 <= j < k ==> name_char(#[trigger] s@[j]),
        decreases s.len() - k,
    {
        if !is_name_char(s[k]) {
            return false;
        }
        k = k + 1;
    }
    true
}

fn apply_tag_exec(t: &Vec<char>, stack: &mut Vec<Vec<char>>) -> (ok: bool)
    ensures
        match apply_tag(t@, names(old(stack)@)) {
            Some(s) => ok && names(final(stack)@) == s,
            None => !ok,
        },
{
    let n = t.len();
    if n > 0 && t[0] == '?' {
        return n >= 2 && t[n - 1] == '?';
    }
    if n > 0 && t[0] == '!' {
        if n < 5 {
            return false;
        }
        let head = slice_chars(t, 0, 3);
        let tail = slice_chars(t, n - 2, n);
        return same_chars(&head, &chars_of("!--")) && same_chars(&tail, &chars_of("--"));
    }
    if n > 0 && t[0] == '/' {
        let u = slice_chars(t, 1, n);
        assert(u@ =~= t@.drop_first());
        let name = name_of(&u, 0);
        assert(u@.subrange(0, u@.len() as int) =~= u@);
        proof {
            lemma_name_len_bounds(u@, 0);
        }
        if !is_valid_name(&name) || !spaces_from(&u, name.len()) {
            return false;
        }
        if stack.len() == 0 {
            return false;
        }
        let top = stack.len() - 1;
        if !same_chars(&stack[top], &name) {
            return false;
        }
        let ghost before = stack@;
        stack.pop();
        assert(names(stack@) =~= names(before).drop_last());
        return true;
    }
    let empty = n > 0 && t[n - 1] == '/';
    let b = if empty {
        slice_chars(t, 0, n - 1)
    } else {
        slice_chars(t, 0, n)
    };
    assert(b@ =~= if empty {
        t@.drop_last()
    } else {
        t@
    });
    let name = name_of(&b, 0);
    assert(b@.subrange(0, b@.len() as int) =~= b@);
    proof {
        lemma_name_len_bounds(b@, 0);
    }
    if !is_valid_name(&name) || !attrs_ok(&b, name.len()) {
        return false;
    }
    if empty {
        return true;
    }
    let ghost before = stack@;
    stack.push(name);
    assert(names(stack@) =~= names(before).push(name@));
    true
}

proof fn lemma_name_len_bounds(t: Seq<char>, k: int)
    requires
        0 <= k <= t.len(),
    ensures
        k <= name_len(t, k) <= t.len(),
    decreases t.len() - k,
{
    if k < t.len() && !ends_name(t[k]) {
        lemma_name_len_bounds(t, k + 1);
    }
}

fn starts_element_exec(t: &Vec<char>) -> (r: bool)
    ensures
        r == starts_element(t@),
{
    !(t.len() > 0 && (t[0] == '?' || t[0] == '!' || t[0] == '/'))
}

/// Whether `s` is a well-formed document (see `well_formed`).
pub fn is_well_formed(s: &str) -> (r: bool)
    ensures
        r == well_formed(s@),
{
    let d = chars_of(s);
    let mut stack: Vec<Vec<char>> = Vec::new();
    let mut in_tag = false;
    let mut rooted = false;
    let mut open: usize = 0;
    let mut i: usize = 0;
    assert(names(stack@) =~= Seq::<Seq<char>>::empty());
    while i < d.len()
        invariant
            d@ == s@,
            i <= d.len(),
            in_tag ==> open < i,
            nests_from(d@, i as int, names(stack@), if in_tag { open as int } else { -1 }, rooted)
                == well_formed(s@),
        decreases d.len() - i,
    {
        if !in_tag {
            let c = d[i];
            if c == '<' {
                in_tag = true;
                open = i;
            } else if stack.len() == 0 && !is_space(c) {
                return false;
            } else if c == '&' && !reference_ok(&d, i) {
                return false;
            }
        } else if d[i] == '>' {
            let t = slice_chars(&d, open + 1, i);
            let starts = starts_element_exec(&t);
            if stack.len() == 0 && starts && rooted {
                return false;
            }
            if !apply_tag_exec(&t, &mut stack) {
                return false;
            }
            rooted = rooted || starts;
            in_tag = false;
        }
        i = i + 1;
    }
    !in_tag && stack.len() == 0 && rooted
}

} // verus!
