//! Indenting multi-line text.
use vstd::prelude::*;
use crate::protocol::{str_chars, string_push};

verus! {

/// Text that can be indented line by line.
pub trait AddIndent {
    /// The text with every line indented by `sz` spaces.
    fn add_indent(&self, sz: u32) -> String;
}

/// `n` spaces.
pub open spec fn spaces(n: nat) -> Seq<char> {
    Seq::new(n, |i: int| ' ')
}

/// What the character at `i` of `s` becomes: a carriage return that ends a
/// line disappears, a line feed is followed by the indentation `pad`, any
/// other character stays.
pub open spec fn indent_piece(s: Seq<char>, pad: Seq<char>, i: int) -> Seq<char> {
    if s[i] == '\r' && i + 1 < s.len() && s[i + 1] == '\n' {
        Seq::empty()
    } else if s[i] == '\n' {
        seq!['\n'] + pad
    } else {
        seq![s[i]]
    }
}

/// What the first `n` characters of `s` become.
pub open spec fn indent_pieces(s: Seq<char>, pad: Seq<char>, n: nat) -> Seq<char>
    decreases n,
{
    if n == 0 {
        Seq::empty()
    } else {
        indent_pieces(s, pad, (n - 1) as nat) + indent_piece(s, pad, n - 1)
    }
}

/// `s` with CRLF line ends made LF and each of its lines preceded by `sz`
/// spaces.
pub open spec fn indented(s: Seq<char>, sz: nat) -> Seq<char> {
    spaces(sz) + indent_pieces(s, spaces(sz), s.len())
}

/// Appends `sz` spaces to `out`.
fn push_spaces(out: &mut String, sz: u32)
    ensures
        final(out)@ == old(out)@ + spaces(sz as nat),
{
    let mut k: u32 = 0;
    while k < sz
        invariant
            k <= sz,
            out@ == old(out)@ + spaces(k as nat),
        decreases sz - k,
    {
        string_push(out, ' ');
        proof {
            assert(spaces(k as nat).push(' ') =~= spaces((k + 1) as nat));
            assert(out@ =~= old(out)@ + spaces((k + 1) as nat));
        }
        k = k + 1;
    }
}

impl AddIndent for String {
    fn add_indent(&self, sz: u32) -> (r: String)
        ensures
            r@ == indented(self@, sz as nat),
    {
        let chars = str_chars(self.as_str());
        let ghost pad = spaces(sz as nat);
        let mut out = String::new();
        push_spaces(&mut out, sz);
        assert(out@ =~= pad);
        let mut i: usize = 0;
        while i < chars.len()
            invariant
                i <= chars.len(),
                chars@ == self@,
                pad == spaces(sz as nat),
                out@ == pad + indent_pieces(chars@, pad, i as nat),
            decreases chars.len() - i,
        {
            let c = chars[i];
            let ghost before = out@;
            if c == '\r' && i + 1 < chars.len() && chars[i + 1] == '\n' {
                assert(indent_piece(chars@, pad, i as int) =~= Seq::<char>::empty());
            } else if c == '\n' {
                string_push(&mut out, '\n');
                push_spaces(&mut out, sz);
                assert(indent_piece(chars@, pad, i as int) =~= seq!['\n'] + pad);
            } else {
                string_push(&mut out, c);
                assert(indent_piece(chars@, pad, i as int) =~= seq![c]);
            }
            assert(indent_pieces(chars@, pad, (i + 1) as nat)
                == indent_pieces(chars@, pad, i as nat) + indent_piece(chars@, pad, i as int));
            assert(out@ =~= pad + indent_pieces(chars@, pad, (i + 1) as nat));
            i = i + 1;
        }
        out
    }
}

} // verus!
