//! Text helpers shared by the rest of the library.

use vstd::prelude::*;
use vstd::string::StringExecFns;

verus! {

/// The character of one decimal digit.
pub open spec fn digit_char(d: int) -> char
    recommends
        0 <= d < 10,
{
    if d == 0 {
        '0'
    } else if d == 1 {
        '1'
    } else if d == 2 {
        '2'
    } else if d == 3 {
        '3'
    } else if d == 4 {
        '4'
    } else if d == 5 {
        '5'
    } else if d == 6 {
        '6'
    } else if d == 7 {
        '7'
    } else if d == 8 {
        '8'
    } else {
        '9'
    }
}

/// The decimal digits of a natural number, without leading zeros.
pub open spec fn nat_text(n: nat) -> Seq<char>
    decreases n,
{
    if n < 10 {
        seq![digit_char(n as int)]
    } else {
        nat_text(n / 10).push(digit_char((n % 10) as int))
    }
}

/// The decimal text of an integer, with a minus sign when it is negative.
pub open spec fn int_text(n: int) -> Seq<char> {
    if n < 0 {
        seq!['-'] + nat_text((-n) as nat)
    } else {
        nat_text(n as nat)
    }
}

/// What a character becomes in regular HTML text: `&`, `<` and `>` are
/// written as entities, every other character stays.
pub open spec fn escaped_char(c: char) -> Seq<char> {
    if c == '&' {
        seq!['&', 'a', 'm', 'p', ';']
    } else if c == '<' {
        seq!['&', 'l', 't', ';']
    } else if c == '>' {
        seq!['&', 'g', 't', ';']
    } else {
        seq![c]
    }
}

/// A text with each character as regular HTML text holds it.
pub open spec fn escaped_text(s: Seq<char>) -> Seq<char>
    decreases s.len(),
{
    if s.len() == 0 {
        Seq::empty()
    } else {
        escaped_text(s.drop_last()) + escaped_char(s.last())
    }
}

/// One piece of a rendered text: characters, or a float that is still to be
/// written out. Floats are kept as their IEEE-754 bit patterns; whoever
/// prints the text writes each in its shortest decimal form.
#[derive(Debug, Clone, PartialEq, Eq)]
pub enum Fragment {
    /// Characters as they stand.
    Text(String),
    /// A 32-bit float by its bit pattern.
    F32(u32),
    /// A 64-bit float by its bit pattern.
    F64(u64),
}

/// One position of a rendered text: a character, or a float that is still to
/// be written out.
pub enum Glyph {
    Char(char),
    F32(u32),
    F64(u64),
}

/// Characters as positions of a rendered text.
pub open spec fn glyphs(s: Seq<char>) -> Seq<Glyph> {
    Seq::new(s.len(), |i: int| glyph_at(s, i))
}

/// The character at `i` as a position of a rendered text.
pub open spec fn glyph_at(s: Seq<char>, i: int) -> Glyph {
    Glyph::Char(s[i])
}

/// The character that a position holds; a space where it holds a float.
pub open spec fn char_at(g: Seq<Glyph>, i: int) -> char {
    match g[i] {
        Glyph::Char(c) => c,
        _ => ' ',
    }
}

/// The positions that one fragment stands for.
pub open spec fn fragment_glyphs(f: Fragment) -> Seq<Glyph> {
    match f {
        Fragment::Text(s) => glyphs(s@),
        Fragment::F32(bits) => seq![Glyph::F32(bits)],
        Fragment::F64(bits) => seq![Glyph::F64(bits)],
    }
}

/// The positions that a sequence of fragments stands for.
pub open spec fn flatten(fragments: Seq<Fragment>) -> Seq<Glyph>
    decreases fragments.len(),
{
    if fragments.len() == 0 {
        Seq::empty()
    } else {
        flatten(fragments.drop_last()) + fragment_glyphs(fragments.last())
    }
}

/// The characters of a text without floats.
pub open spec fn plain(g: Seq<Glyph>) -> Seq<char> {
    Seq::new(g.len(), |i: int| char_at(g, i))
}

/// Whether a text holds no float.
pub open spec fn is_plain(g: Seq<Glyph>) -> bool {
    forall|i: int| 0 <= i < g.len() ==> (#[trigger] g[i]) is Char
}

/// A text that is built piece by piece and may hold floats that are still to
/// be written out.
#[derive(Debug, Clone, PartialEq, Eq)]
pub struct Rendering {
    /// The pieces in their order.
    pub fragments: Vec<Fragment>,
}

impl View for Rendering {
    type V = Seq<Glyph>;

    open spec fn view(&self) -> Seq<Glyph> {
        flatten(self.fragments@)
    }
}

impl Rendering {
    /// An empty text.
    pub fn new() -> (r: Self)
        ensures
            r@ == Seq::<Glyph>::empty(),
    {
        Rendering { fragments: Vec::new() }
    }

    /// Adds characters at the end.
    pub fn push_str(&mut self, s: &str)
        ensures
            final(self)@ == old(self)@ + glyphs(s@),
    {
        let ghost before = self.fragments@;
        self.fragments.push(Fragment::Text(String::from_str(s)));
        assert(self.fragments@.drop_last() =~= before);
    }

    /// Adds a 32-bit float, given by its bit pattern, at the end.
    pub fn push_f32(&mut self, bits: u32)
        ensures
            final(self)@ == old(self)@ + seq![Glyph::F32(bits)],
    {
        let ghost before = self.fragments@;
        self.fragments.push(Fragment::F32(bits));
        assert(self.fragments@.drop_last() =~= before);
    }

    /// Adds a 64-bit float, given by its bit pattern, at the end.
    pub fn push_f64(&mut self, bits: u64)
        ensures
            final(self)@ == old(self)@ + seq![Glyph::F64(bits)],
    {
        let ghost before = self.fragments@;
        self.fragments.push(Fragment::F64(bits));
        assert(self.fragments@.drop_last() =~= before);
    }

    /// The text as a string, where it holds no float.
    pub fn to_plain_string(&self) -> (r: Option<String>)
        ensures
            match r {
                Some(s) => is_plain(self@) && s@ == plain(self@),
                None => !is_plain(self@),
            },
    {
        let mut out = String::new();
        let mut i: usize = 0;
        while i < self.fragments.len()
            invariant
                i <= self.fragments@.len(),
                is_plain(flatten(self.fragments@.take(i as int))),
                out@ == plain(flatten(self.fragments@.take(i as int))),
            decreases self.fragments@.len() - i,
        {
            let ghost done = self.fragments@.take(i as int);
            let ghost next = self.fragments@.take(i + 1);
            assert(next.drop_last() =~= done);
            assert(next.last() == self.fragments@[i as int]);
            match &self.fragments[i] {
                Fragment::Text(s) => {
                    out.append(s.as_str());
                    proof {
                        let a = flatten(done);
                        let b = flatten(next);
                        assert(b =~= a + glyphs(s@));
                        assert(glyphs(s@).len() == s@.len());
                        assert(b.len() == a.len() + s@.len());
                        assert forall|j: int| 0 <= j < b.len() implies (#[trigger] b[j]) is Char by {
                            if j < a.len() {
                                assert(b[j] == a[j]);
                                assert(a[j] is Char);
                            } else {
                                assert(b[j] == glyphs(s@)[j - a.len()]);
                                assert(glyphs(s@)[j - a.len()] == Glyph::Char(s@[j - a.len()]));
                            }
                        }
                        assert forall|j: int| 0 <= j < b.len() implies plain(b)[j] == (plain(a)
                            + s@)[j] by {
                            if j < a.len() {
                                assert(b[j] == a[j]);
                            } else {
                                assert(b[j] == glyphs(s@)[j - a.len()]);
                                assert(glyphs(s@)[j - a.len()] == Glyph::Char(s@[j - a.len()]));
                            }
                        }
                        assert(plain(b) =~= plain(a) + s@);
                    }
                },
                _ => {
                    proof {
                        let g = flatten(next);
                        assert(!(g[g.len() - 1] is Char));
                        lemma_flatten_prefix(self.fragments@, i + 1);
                        let whole = self@;
                        assert(whole[g.len() - 1] == g[g.len() - 1]);
                    }
                    return None;
                },
            }
            i = i + 1;
        }
        assert(self.fragments@.take(i as int) =~= self.fragments@);
        Some(out)
    }
}

/// The positions of the first fragments are the first positions of the
/// whole.
pub proof fn lemma_flatten_prefix(fragments: Seq<Fragment>, k: int)
    requires
        0 <= k <= fragments.len(),
    ensures
        flatten(fragments.take(k)).len() <= flatten(fragments).len(),
        flatten(fragments.take(k)) == flatten(fragments).take(
            flatten(fragments.take(k)).len() as int,
        ),
    decreases fragments.len() - k,
{
    if k == fragments.len() {
        assert(fragments.take(k) =~= fragments);
        assert(flatten(fragments).take(flatten(fragments).len() as int) =~= flatten(fragments));
    } else {
        lemma_flatten_prefix(fragments, k + 1);
        assert(fragments.take(k + 1).drop_last() =~= fragments.take(k));
        let a = flatten(fragments.take(k));
        let b = flatten(fragments.take(k + 1));
        assert(b =~= a + fragment_glyphs(fragments[k]));
        assert(a =~= flatten(fragments).take(a.len() as int));
    }
}

} // verus!
