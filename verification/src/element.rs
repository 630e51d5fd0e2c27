//! HTML elements: attribute escaping and rendering of an element tree.

use vstd::prelude::*;
use crate::text::{lowercase, push_char, push_str, to_lowercase};

verus! {

/// What one character becomes in an attribute value.
pub open spec fn escape_char(c: char) -> Seq<char> {
    if c == '<' {
        seq!['&', 'l', 't', ';']
    } else if c == '>' {
        seq!['&', 'g', 't', ';']
    } else if c == '"' {
        seq!['&', 'q', 'u', 'o', 't', ';']
    } else {
        seq![c]
    }
}

/// `s` with `<`, `>` and `"` replaced by `&lt;`, `&gt;` and `&quot;`.
pub open spec fn spec_escape(s: Seq<char>) -> Seq<char>
    decreases s.len(),
{
    if s.len() == 0 {
        Seq::empty()
    } else {
        spec_escape(s.drop_last()) + escape_char(s.last())
    }
}

/// The escaped text holds none of the three characters.
pub proof fn lemma_escape_is_safe(s: Seq<char>)
    ensures
        forall|i: int|
            0 <= i < spec_escape(s).len() ==> spec_escape(s)[i] != '<' && spec_escape(s)[i] != '>'
                && spec_escape(s)[i] != '"',
    decreases s.len(),
{
    if s.len() > 0 {
        lemma_escape_is_safe(s.drop_last());
        let pre = spec_escape(s.drop_last());
        let tail = escape_char(s.last());
        assert forall|i: int| 0 <= i < spec_escape(s).len() implies spec_escape(s)[i] != '<'
            && spec_escape(s)[i] != '>' && spec_escape(s)[i] != '"' by {
            if i >= pre.len() {
                assert(spec_escape(s)[i] == tail[i - pre.len()]);
            } else {
                assert(spec_escape(s)[i] == pre[i]);
            }
        }
    }
}

/// Escaping works character by character: the escape of two texts one after the
/// other is their escapes one after the other.
pub proof fn lemma_escape_concat(a: Seq<char>, b: Seq<char>)
    ensures
        spec_escape(a + b) == spec_escape(a) + spec_escape(b),
    decreases b.len(),
{
    if b.len() == 0 {
        assert(a + b =~= a);
    } else {
        lemma_escape_concat(a, b.drop_last());
        assert((a + b).drop_last() =~= a + b.drop_last());
        assert((a + b).last() == b.last());
    }
}

/// A text with none of `<`, `>` and `"` escapes to itself.
pub proof fn lemma_escape_keeps_plain_text(s: Seq<char>)
    requires
        forall|i: int| 0 <= i < s.len() ==> s[i] != '<' && s[i] != '>' && s[i] != '"',
    ensures
        spec_escape(s) == s,
    decreases s.len(),
{
    if s.len() > 0 {
        lemma_escape_keeps_plain_text(s.drop_last());
        assert(spec_escape(s) =~= s.drop_last() + seq![s.last()]);
        assert(s.drop_last() + seq![s.last()] =~= s);
    }
}

/// Escapes `<`, `>` and `"` so that the text can stand in a quoted attribute value.
pub fn escape(input: &str) -> (output: String)
    ensures
        output@ == spec_escape(input@),
        forall|i: int|
            0 <= i < output@.len() ==> output@[i] != '<' && output@[i] != '>' && output@[i]
                != '"',
{
    let n = input.unicode_len();
    let mut output = String::new();
    let mut i: usize = 0;
    while i < n
        invariant
            n == input@.len(),
            i <= n,
            output@ == spec_escape(input@.subrange(0, i as int)),
        decreases n - i,
    {
        let c = input.get_char(i);
        if c == '<' {
            push_char(&mut output, '&');
            push_char(&mut output, 'l');
            push_char(&mut output, 't');
            push_char(&mut output, ';');
        } else if c == '>' {
            push_char(&mut output, '&');
            push_char(&mut output, 'g');
            push_char(&mut output, 't');
            push_char(&mut output, ';');
        } else if c == '"' {
            push_char(&mut output, '&');
            push_char(&mut output, 'q');
            push_char(&mut output, 'u');
            push_char(&mut output, 'o');
            push_char(&mut output, 't');
            push_char(&mut output, ';');
        } else {
            push_char(&mut output, c);
        }
        assert(input@.subrange(0, i + 1).drop_last() =~= input@.subrange(0, i as int));
        i = i + 1;
    }
    assert(input@.subrange(0, n as int) =~= input@);
    proof {
        lemma_escape_is_safe(input@);
    }
    output
}


/// An HTML element: its tag name, its attributes (keys and values, in the order in
/// which they are written) and its children.
pub struct Element {
    pub tag_name: String,
    pub attributes: Vec<(String, String)>,
    pub children: Vec<Element>,
}

/// The attributes as written in an opening tag: `key="value" ` for each, with the
/// value escaped.
pub open spec fn render_attributes(attributes: Seq<(String, String)>) -> Seq<char>
    decreases attributes.len(),
{
    if attributes.len() == 0 {
        Seq::empty()
    } else {
        render_attributes(attributes.drop_last()) + attributes.last().0@ + seq!['=', '"']
            + spec_escape(attributes.last().1@) + seq!['"', ' ']
    }
}

/// The HTML of an element: `<tag attributes>children</tag>`.
pub open spec fn render(e: Element) -> Seq<char>
    decreases e, e.children@.len() + 1,
{
    seq!['<'] + e.tag_name@ + seq![' '] + render_attributes(e.attributes@) + seq!['>']
        + render_children(e, e.children@.len() as int) + seq!['<', '/'] + e.tag_name@ + seq!['>']
}

/// The HTML of the first `n` children of `e`, one after the other.
pub open spec fn render_children(e: Element, n: int) -> Seq<char>
    decreases e, n,
{
    if n <= 0 || n > e.children@.len() {
        Seq::empty()
    } else {
        proof {
            assert(decreases_to!(e => e.children));
            assert(decreases_to!(e.children => e.children@));
            assert(decreases_to!(e.children@ => e.children@[n - 1]));
        }
        render_children(e, n - 1) + render(e.children@[n - 1])
    }
}


/// Elements whose first `k` children are the same render those children alike.
pub proof fn lemma_same_first_children(e1: Element, e2: Element, k: int)
    requires
        0 <= k <= e1.children@.len(),
        k <= e2.children@.len(),
        forall|i: int| 0 <= i < k ==> e1.children@[i] == e2.children@[i],
    ensures
        render_children(e1, k) == render_children(e2, k),
    decreases k,
{
    if k > 0 {
        lemma_same_first_children(e1, e2, k - 1);
    }
}

/// Children are rendered in order: the HTML of the first `j` children begins the
/// HTML of the first `k`, for `j <= k`.
pub proof fn lemma_children_in_order(e: Element, j: int, k: int)
    requires
        0 <= j <= k <= e.children@.len(),
    ensures
        render_children(e, j).len() <= render_children(e, k).len(),
        render_children(e, k).take(render_children(e, j).len() as int) == render_children(e, j),
    decreases k - j,
{
    if j < k {
        lemma_children_in_order(e, j, k - 1);
        let a = render_children(e, j);
        let b = render_children(e, k - 1);
        assert(render_children(e, k) == b + render(e.children@[k - 1]));
        assert((b + render(e.children@[k - 1])).take(a.len() as int) =~= b.take(a.len() as int));
    } else {
        assert(render_children(e, k).take(render_children(e, j).len() as int) =~= render_children(e, j));
    }
}

/// Adding a child at the end of an element adds its HTML after that of the other
/// children.
pub proof fn lemma_append_child(e: Element, e2: Element, c: Element)
    requires
        e2.children@ == e.children@.push(c),
    ensures
        render_children(e2, e2.children@.len() as int) == render_children(e, e.children@.len() as int)
            + render(c),
{
    let n = e.children@.len() as int;
    lemma_same_first_children(e, e2, n);
    assert(e2.children@[n] == c);
}

/// Attributes are written in order: those of two lists one after the other are
/// written as the first list's, then the second's.
pub proof fn lemma_attributes_in_order(a: Seq<(String, String)>, b: Seq<(String, String)>)
    ensures
        render_attributes(a + b) == render_attributes(a) + render_attributes(b),
    decreases b.len(),
{
    if b.len() == 0 {
        assert(a + b =~= a);
    } else {
        lemma_attributes_in_order(a, b.drop_last());
        assert((a + b).drop_last() =~= a + b.drop_last());
        assert((a + b).last() == b.last());
    }
}

impl Element {
    /// An element with no attributes and no children whose tag is the lowercase form
    /// of `name`.
    pub fn named(name: &str) -> (e: Element)
        ensures
            e.tag_name@ == lowercase(name@),
            e.attributes@.len() == 0,
            e.children@.len() == 0,
    {
        Element { tag_name: to_lowercase(name), attributes: Vec::new(), children: Vec::new() }
    }

    pub fn get_tag_name(&self) -> (r: &str)
        ensures
            r@ == self.tag_name@,
    {
        self.tag_name.as_str()
    }

    pub fn get_attributes(&self) -> (r: &[(String, String)])
        ensures
            r@ == self.attributes@,
    {
        self.attributes.as_slice()
    }

    pub fn get_children(&self) -> (r: &[Element])
        ensures
            r@ == self.children@,
    {
        self.children.as_slice()
    }

    /// The HTML of the element and its children, as `render` says.
    pub fn as_string(&self) -> (s: String)
        ensures
            s@ == render(*self),
        decreases self,
    {
        let mut out = String::new();
        push_char(&mut out, '<');
        push_str(&mut out, self.tag_name.as_str());
        push_char(&mut out, ' ');
        let ghost head = seq!['<'] + self.tag_name@ + seq![' '];
        assert(out@ =~= head);
        let mut i: usize = 0;
        assert(self.attributes@.subrange(0, 0) =~= Seq::<(String, String)>::empty());
        while i < self.attributes.len()
            invariant
                i <= self.attributes@.len(),
                out@ == head + render_attributes(self.attributes@.subrange(0, i as int)),
            decreases self.attributes@.len() - i,
        {
            let ghost before = out@;
            let (key, value) = &self.attributes[i];
            push_str(&mut out, key.as_str());
            push_char(&mut out, '=');
            push_char(&mut out, '"');
            let escaped = escape(value.as_str());
            push_str(&mut out, escaped.as_str());
            push_char(&mut out, '"');
            push_char(&mut out, ' ');
            let ghost attrs = self.attributes@.subrange(0, i + 1);
            assert(attrs.drop_last() =~= self.attributes@.subrange(0, i as int));
            assert(attrs.last() == self.attributes@[i as int]);
            assert(out@ =~= head + render_attributes(attrs));
            i = i + 1;
        }
        assert(self.attributes@.subrange(0, i as int) =~= self.attributes@);
        push_char(&mut out, '>');
        let ghost open_tag = head + render_attributes(self.attributes@) + seq!['>'];
        assert(out@ =~= open_tag + render_children(*self, 0));
        let mut j: usize = 0;
        while j < self.children.len()
            invariant
                j <= self.children@.len(),
                out@ == open_tag + render_children(*self, j as int),
            decreases self.children@.len() - j,
        {
            proof {
                assert(decreases_to!(self => self.children));
                assert(decreases_to!(self.children => self.children@));
                assert(decreases_to!(self.children@ => self.children@[j as int]));
            }
            let child = self.children[j].as_string();
            push_str(&mut out, child.as_str());
            assert(out@ =~= open_tag + render_children(*self, j + 1));
            j = j + 1;
        }
        push_char(&mut out, '<');
        push_char(&mut out, '/');
        push_str(&mut out, self.tag_name.as_str());
        push_char(&mut out, '>');
        assert(out@ =~= render(*self));
        out
    }
}

} // verus!
