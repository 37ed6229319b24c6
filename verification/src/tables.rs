//! Fixed configuration tables of the engine: the public-suffix list,
//! the insertion alphabet, keyboard adjacency, visually confusable
//! characters, valid single-bit-flip neighbours, and the keyword list
//! used for combosquatting.

#![allow(unused_imports)]
use vstd::prelude::*;

verus! {

/// ASCII case folding: uppercase letters map to their lowercase
/// counterparts, every other character is unchanged.
pub open spec fn spec_to_lower(c: char) -> char {
    if c == 'A' {
        'a'
    } else if c == 'B' {
        'b'
    } else if c == 'C' {
        'c'
    } else if c == 'D' {
        'd'
    } else if c == 'E' {
        'e'
    } else if c == 'F' {
        'f'
    } else if c == 'G' {
        'g'
    } else if c == 'H' {
        'h'
    } else if c == 'I' {
        'i'
    } else if c == 'J' {
        'j'
    } else if c == 'K' {
        'k'
    } else if c == 'L' {
        'l'
    } else if c == 'M' {
        'm'
    } else if c == 'N' {
        'n'
    } else if c == 'O' {
        'o'
    } else if c == 'P' {
        'p'
    } else if c == 'Q' {
        'q'
    } else if c == 'R' {
        'r'
    } else if c == 'S' {
        's'
    } else if c == 'T' {
        't'
    } else if c == 'U' {
        'u'
    } else if c == 'V' {
        'v'
    } else if c == 'W' {
        'w'
    } else if c == 'X' {
        'x'
    } else if c == 'Y' {
        'y'
    } else if c == 'Z' {
        'z'
    } else {
        c
    }
}

/// ASCII case folding of one character.
pub fn to_lower(c: char) -> (r: char)
    ensures
        r == spec_to_lower(c),
{
    if c == 'A' {
        'a'
    } else if c == 'B' {
        'b'
    } else if c == 'C' {
        'c'
    } else if c == 'D' {
        'd'
    } else if c == 'E' {
        'e'
    } else if c == 'F' {
        'f'
    } else if c == 'G' {
        'g'
    } else if c == 'H' {
        'h'
    } else if c == 'I' {
        'i'
    } else if c == 'J' {
        'j'
    } else if c == 'K' {
        'k'
    } else if c == 'L' {
        'l'
    } else if c == 'M' {
        'm'
    } else if c == 'N' {
        'n'
    } else if c == 'O' {
        'o'
    } else if c == 'P' {
        'p'
    } else if c == 'Q' {
        'q'
    } else if c == 'R' {
        'r'
    } else if c == 'S' {
        's'
    } else if c == 'T' {
        't'
    } else if c == 'U' {
        'u'
    } else if c == 'V' {
        'v'
    } else if c == 'W' {
        'w'
    } else if c == 'X' {
        'x'
    } else if c == 'Y' {
        'y'
    } else if c == 'Z' {
        'z'
    } else {
        c
    }
}

/// The alphabet used by the addition and insertion strategies.
pub open spec fn spec_alphabet() -> Seq<char> {
    seq!['a', 'b', 'c', 'd', 'e', 'f', 'g', 'h', 'i', 'j', 'k', 'l', 'm', 'n', 'o', 'p', 'q', 'r', 's', 't', 'u', 'v', 'w', 'x', 'y', 'z', '0', '1', '2', '3', '4', '5', '6', '7', '8', '9']
}

/// The alphabet used by the addition and insertion strategies.
pub fn alphabet() -> (r: Vec<char>)
    ensures
        r@ == spec_alphabet(),
{
    let mut v: Vec<char> = Vec::new();
    v.push('a');
    v.push('b');
    v.push('c');
    v.push('d');
    v.push('e');
    v.push('f');
    v.push('g');
    v.push('h');
    v.push('i');
    v.push('j');
    v.push('k');
    v.push('l');
    v.push('m');
    v.push('n');
    v.push('o');
    v.push('p');
    v.push('q');
    v.push('r');
    v.push('s');
    v.push('t');
    v.push('u');
    v.push('v');
    v.push('w');
    v.push('x');
    v.push('y');
    v.push('z');
    v.push('0');
    v.push('1');
    v.push('2');
    v.push('3');
    v.push('4');
    v.push('5');
    v.push('6');
    v.push('7');
    v.push('8');
    v.push('9');
    proof {
        assert(v@ =~= spec_alphabet());
    }
    v
}

/// The vowels, for the vowel-swap strategy.
pub open spec fn spec_vowels() -> Seq<char> {
    seq!['a', 'e', 'i', 'o', 'u']
}

/// The vowels, for the vowel-swap strategy.
pub fn vowels() -> (r: Vec<char>)
    ensures
        r@ == spec_vowels(),
{
    let mut v: Vec<char> = Vec::new();
    v.push('a');
    v.push('e');
    v.push('i');
    v.push('o');
    v.push('u');
    proof {
        assert(v@ =~= spec_vowels());
    }
    v
}

/// QWERTY keyboard adjacency of a character (empty when the character has no entry).
pub open spec fn spec_neighbors(c: char) -> Seq<char> {
    if c == '0' {
        seq!['9', 'p']
    } else if c == '1' {
        seq!['2', 'q']
    } else if c == '2' {
        seq!['1', '3', 'w']
    } else if c == '3' {
        seq!['2', '4', 'e']
    } else if c == '4' {
        seq!['3', '5', 'r']
    } else if c == '5' {
        seq!['4', '6', 't']
    } else if c == '6' {
        seq!['5', '7', 'y']
    } else if c == '7' {
        seq!['6', '8', 'u']
    } else if c == '8' {
        seq!['7', '9', 'i']
    } else if c == '9' {
        seq!['8', '0', 'o']
    } else if c == 'a' {
        seq!['q', 's', 'z']
    } else if c == 'b' {
        seq!['v', 'g', 'n']
    } else if c == 'c' {
        seq!['x', 'd', 'v']
    } else if c == 'd' {
        seq!['s', 'e', 'f', 'c']
    } else if c == 'e' {
        seq!['w', 'r', 'd']
    } else if c == 'f' {
        seq!['d', 'r', 'g', 'v']
    } else if c == 'g' {
        seq!['f', 't', 'h', 'b']
    } else if c == 'h' {
        seq!['g', 'y', 'j', 'n']
    } else if c == 'i' {
        seq!['u', 'o', 'k']
    } else if c == 'j' {
        seq!['h', 'u', 'k', 'm']
    } else if c == 'k' {
        seq!['j', 'i', 'l']
    } else if c == 'l' {
        seq!['k', 'o']
    } else if c == 'm' {
        seq!['n', 'j']
    } else if c == 'n' {
        seq!['b', 'h', 'm']
    } else if c == 'o' {
        seq!['i', 'p', 'l']
    } else if c == 'p' {
        seq!['o']
    } else if c == 'q' {
        seq!['w', 'a']
    } else if c == 'r' {
        seq!['e', 't', 'f']
    } else if c == 's' {
        seq!['a', 'w', 'd', 'x']
    } else if c == 't' {
        seq!['r', 'y', 'g']
    } else if c == 'u' {
        seq!['y', 'i', 'j']
    } else if c == 'v' {
        seq!['c', 'f', 'b']
    } else if c == 'w' {
        seq!['q', 'e', 's']
    } else if c == 'x' {
        seq!['z', 's', 'c']
    } else if c == 'y' {
        seq!['t', 'u', 'h']
    } else if c == 'z' {
        seq!['a', 'x']
    } else {
        Seq::empty()
    }
}

/// QWERTY keyboard adjacency of a character (empty when the character has no entry).
pub fn neighbors(c: char) -> (r: Vec<char>)
    ensures
        r@ == spec_neighbors(c),
{
    if c == '0' {
        let mut v: Vec<char> = Vec::new();
        v.push('9');
        v.push('p');
        proof {
            assert(v@ =~= spec_neighbors(c));
        }
        return v;
    }
    if c == '1' {
        let mut v: Vec<char> = Vec::new();
        v.push('2');
        v.push('q');
        proof {
            assert(v@ =~= spec_neighbors(c));
        }
        return v;
    }
    if c == '2' {
        let mut v: Vec<char> = Vec::new();
        v.push('1');
        v.push('3');
        v.push('w');
        proof {
            assert(v@ =~= spec_neighbors(c));
        }
        return v;
    }
    if c == '3' {
        let mut v: Vec<char> = Vec::new();
        v.push('2');
        v.push('4');
        v.push('e');
        proof {
            assert(v@ =~= spec_neighbors(c));
        }
        return v;
    }
    if c == '4' {
        let mut v: Vec<char> = Vec::new();
        v.push('3');
        v.push('5');
        v.push('r');
        proof {
            assert(v@ =~= spec_neighbors(c));
        }
        return v;
    }
    if c == '5' {
        let mut v: Vec<char> = Vec::new();
        v.push('4');
        v.push('6');
        v.push('t');
        proof {
            assert(v@ =~= spec_neighbors(c));
        }
        return v;
    }
    if c == '6' {
        let mut v: Vec<char> = Vec::new();
        v.push('5');
        v.push('7');
        v.push('y');
        proof {
            assert(v@ =~= spec_neighbors(c));
        }
        return v;
    }
    if c == '7' {
        let mut v: Vec<char> = Vec::new();
        v.push('6');
        v.push('8');
        v.push('u');
        proof {
            assert(v@ =~= spec_neighbors(c));
        }
        return v;
    }
    if c == '8' {
        let mut v: Vec<char> = Vec::new();
        v.push('7');
        v.push('9');
        v.push('i');
        proof {
            assert(v@ =~= spec_neighbors(c));
        }
        return v;
    }
    if c == '9' {
        let mut v: Vec<char> = Vec::new();
        v.push('8');
        v.push('0');
        v.push('o');
        proof {
            assert(v@ =~= spec_neighbors(c));
        }
        return v;
    }
    if c == 'a' {
        let mut v: Vec<char> = Vec::new();
        v.push('q');
        v.push('s');
        v.push('z');
        proof {
            assert(v@ =~= spec_neighbors(c));
        }
        return v;
    }
    if c == 'b' {
        let mut v: Vec<char> = Vec::new();
        v.push('v');
        v.push('g');
        v.push('n');
        proof {
            assert(v@ =~= spec_neighbors(c));
        }
        return v;
    }
    if c == 'c' {
        let mut v: Vec<char> = Vec::new();
        v.push('x');
        v.push('d');
        v.push('v');
        proof {
            assert(v@ =~= spec_neighbors(c));
        }
        return v;
    }
    if c == 'd' {
        let mut v: Vec<char> = Vec::new();
        v.push('s');
        v.push('e');
        v.push('f');
        v.push('c');
        proof {
            assert(v@ =~= spec_neighbors(c));
        }
        return v;
    }
    if c == 'e' {
        let mut v: Vec<char> = Vec::new();
        v.push('w');
        v.push('r');
        v.push('d');
        proof {
            assert(v@ =~= spec_neighbors(c));
        }
        return v;
    }
    if c == 'f' {
        let mut v: Vec<char> = Vec::new();
        v.push('d');
        v.push('r');
        v.push('g');
        v.push('v');
        proof {
            assert(v@ =~= spec_neighbors(c));
        }
        return v;
    }
    if c == 'g' {
        let mut v: Vec<char> = Vec::new();
        v.push('f');
        v.push('t');
        v.push('h');
        v.push('b');
        proof {
            assert(v@ =~= spec_neighbors(c));
        }
        return v;
    }
    if c == 'h' {
        let mut v: Vec<char> = Vec::new();
        v.push('g');
        v.push('y');
        v.push('j');
        v.push('n');
        proof {
            assert(v@ =~= spec_neighbors(c));
        }
        return v;
    }
    if c == 'i' {
        let mut v: Vec<char> = Vec::new();
        v.push('u');
        v.push('o');
        v.push('k');
        proof {
            assert(v@ =~= spec_neighbors(c));
        }
        return v;
    }
    if c == 'j' {
        let mut v: Vec<char> = Vec::new();
        v.push('h');
        v.push('u');
        v.push('k');
        v.push('m');
        proof {
            assert(v@ =~= spec_neighbors(c));
        }
        return v;
    }
    if c == 'k' {
        let mut v: Vec<char> = Vec::new();
        v.push('j');
        v.push('i');
        v.push('l');
        proof {
            assert(v@ =~= spec_neighbors(c));
        }
        return v;
    }
    if c == 'l' {
        let mut v: Vec<char> = Vec::new();
        v.push('k');
        v.push('o');
        proof {
            assert(v@ =~= spec_neighbors(c));
        }
        return v;
    }
    if c == 'm' {
        let mut v: Vec<char> = Vec::new();
        v.push('n');
        v.push('j');
        proof {
            assert(v@ =~= spec_neighbors(c));
        }
        return v;
    }
    if c == 'n' {
        let mut v: Vec<char> = Vec::new();
        v.push('b');
        v.push('h');
        v.push('m');
        proof {
            assert(v@ =~= spec_neighbors(c));
        }
        return v;
    }
    if c == 'o' {
        let mut v: Vec<char> = Vec::new();
        v.push('i');
        v.push('p');
        v.push('l');
        proof {
            assert(v@ =~= spec_neighbors(c));
        }
        return v;
    }
    if c == 'p' {
        let mut v: Vec<char> = Vec::new();
        v.push('o');
        proof {
            assert(v@ =~= spec_neighbors(c));
        }
        return v;
    }
    if c == 'q' {
        let mut v: Vec<char> = Vec::new();
        v.push('w');
        v.push('a');
        proof {
            assert(v@ =~= spec_neighbors(c));
        }
        return v;
    }
    if c == 'r' {
        let mut v: Vec<char> = Vec::new();
        v.push('e');
        v.push('t');
        v.push('f');
        proof {
            assert(v@ =~= spec_neighbors(c));
        }
        return v;
    }
    if c == 's' {
        let mut v: Vec<char> = Vec::new();
        v.push('a');
        v.push('w');
        v.push('d');
        v.push('x');
        proof {
            assert(v@ =~= spec_neighbors(c));
        }
        return v;
    }
    if c == 't' {
        let mut v: Vec<char> = Vec::new();
        v.push('r');
        v.push('y');
        v.push('g');
        proof {
            assert(v@ =~= spec_neighbors(c));
        }
        return v;
    }
    if c == 'u' {
        let mut v: Vec<char> = Vec::new();
        v.push('y');
        v.push('i');
        v.push('j');
        proof {
            assert(v@ =~= spec_neighbors(c));
        }
        return v;
    }
    if c == 'v' {
        let mut v: Vec<char> = Vec::new();
        v.push('c');
        v.push('f');
        v.push('b');
        proof {
            assert(v@ =~= spec_neighbors(c));
        }
        return v;
    }
    if c == 'w' {
        let mut v: Vec<char> = Vec::new();
        v.push('q');
        v.push('e');
        v.push('s');
        proof {
            assert(v@ =~= spec_neighbors(c));
        }
        return v;
    }
    if c == 'x' {
        let mut v: Vec<char> = Vec::new();
        v.push('z');
        v.push('s');
        v.push('c');
        proof {
            assert(v@ =~= spec_neighbors(c));
        }
        return v;
    }
    if c == 'y' {
        let mut v: Vec<char> = Vec::new();
        v.push('t');
        v.push('u');
        v.push('h');
        proof {
            assert(v@ =~= spec_neighbors(c));
        }
        return v;
    }
    if c == 'z' {
        let mut v: Vec<char> = Vec::new();
        v.push('a');
        v.push('x');
        proof {
            assert(v@ =~= spec_neighbors(c));
        }
        return v;
    }
    let v: Vec<char> = Vec::new();
    proof {
        assert(v@ =~= spec_neighbors(c));
    }
    v
}

/// Visually confusable domain characters for a character (empty when none).
pub open spec fn spec_glyphs(c: char) -> Seq<char> {
    if c == '0' {
        seq!['o']
    } else if c == '1' {
        seq!['l', 'i']
    } else if c == '2' {
        seq!['z']
    } else if c == '3' {
        seq!['e']
    } else if c == '5' {
        seq!['s']
    } else if c == '7' {
        seq!['t']
    } else if c == '8' {
        seq!['b']
    } else if c == '9' {
        seq!['g']
    } else if c == 'b' {
        seq!['8']
    } else if c == 'e' {
        seq!['3']
    } else if c == 'g' {
        seq!['9', 'q']
    } else if c == 'i' {
        seq!['1', 'l']
    } else if c == 'l' {
        seq!['1', 'i']
    } else if c == 'm' {
        seq!['n']
    } else if c == 'n' {
        seq!['m']
    } else if c == 'o' {
        seq!['0']
    } else if c == 'q' {
        seq!['g']
    } else if c == 's' {
        seq!['5']
    } else if c == 't' {
        seq!['7']
    } else if c == 'u' {
        seq!['v']
    } else if c == 'v' {
        seq!['u']
    } else if c == 'z' {
        seq!['2']
    } else {
        Seq::empty()
    }
}

/// Visually confusable domain characters for a character (empty when none).
pub fn glyphs(c: char) -> (r: Vec<char>)
    ensures
        r@ == spec_glyphs(c),
{
    if c == '0' {
        let mut v: Vec<char> = Vec::new();
        v.push('o');
        proof {
            assert(v@ =~= spec_glyphs(c));
        }
        return v;
    }
    if c == '1' {
        let mut v: Vec<char> = Vec::new();
        v.push('l');
        v.push('i');
        proof {
            assert(v@ =~= spec_glyphs(c));
        }
        return v;
    }
    if c == '2' {
        let mut v: Vec<char> = Vec::new();
        v.push('z');
        proof {
            assert(v@ =~= spec_glyphs(c));
        }
        return v;
    }
    if c == '3' {
        let mut v: Vec<char> = Vec::new();
        v.push('e');
        proof {
            assert(v@ =~= spec_glyphs(c));
        }
        return v;
    }
    if c == '5' {
        let mut v: Vec<char> = Vec::new();
        v.push('s');
        proof {
            assert(v@ =~= spec_glyphs(c));
        }
        return v;
    }
    if c == '7' {
        let mut v: Vec<char> = Vec::new();
        v.push('t');
        proof {
            assert(v@ =~= spec_glyphs(c));
        }
        return v;
    }
    if c == '8' {
        let mut v: Vec<char> = Vec::new();
        v.push('b');
        proof {
            assert(v@ =~= spec_glyphs(c));
        }
        return v;
    }
    if c == '9' {
        let mut v: Vec<char> = Vec::new();
        v.push('g');
        proof {
            assert(v@ =~= spec_glyphs(c));
        }
        return v;
    }
    if c == 'b' {
        let mut v: Vec<char> = Vec::new();
        v.push('8');
        proof {
            assert(v@ =~= spec_glyphs(c));
        }
        return v;
    }
    if c == 'e' {
        let mut v: Vec<char> = Vec::new();
        v.push('3');
        proof {
            assert(v@ =~= spec_glyphs(c));
        }
        return v;
    }
    if c == 'g' {
        let mut v: Vec<char> = Vec::new();
        v.push('9');
        v.push('q');
        proof {
            assert(v@ =~= spec_glyphs(c));
        }
        return v;
    }
    if c == 'i' {
        let mut v: Vec<char> = Vec::new();
        v.push('1');
        v.push('l');
        proof {
            assert(v@ =~= spec_glyphs(c));
        }
        return v;
    }
    if c == 'l' {
        let mut v: Vec<char> = Vec::new();
        v.push('1');
        v.push('i');
        proof {
            assert(v@ =~= spec_glyphs(c));
        }
        return v;
    }
    if c == 'm' {
        let mut v: Vec<char> = Vec::new();
        v.push('n');
        proof {
            assert(v@ =~= spec_glyphs(c));
        }
        return v;
    }
    if c == 'n' {
        let mut v: Vec<char> = Vec::new();
        v.push('m');
        proof {
            assert(v@ =~= spec_glyphs(c));
        }
        return v;
    }
    if c == 'o' {
        let mut v: Vec<char> = Vec::new();
        v.push('0');
        proof {
            assert(v@ =~= spec_glyphs(c));
        }
        return v;
    }
    if c == 'q' {
        let mut v: Vec<char> = Vec::new();
        v.push('g');
        proof {
            assert(v@ =~= spec_glyphs(c));
        }
        return v;
    }
    if c == 's' {
        let mut v: Vec<char> = Vec::new();
        v.push('5');
        proof {
            assert(v@ =~= spec_glyphs(c));
        }
        return v;
    }
    if c == 't' {
        let mut v: Vec<char> = Vec::new();
        v.push('7');
        proof {
            assert(v@ =~= spec_glyphs(c));
        }
        return v;
    }
    if c == 'u' {
        let mut v: Vec<char> = Vec::new();
        v.push('v');
        proof {
            assert(v@ =~= spec_glyphs(c));
        }
        return v;
    }
    if c == 'v' {
        let mut v: Vec<char> = Vec::new();
        v.push('u');
        proof {
            assert(v@ =~= spec_glyphs(c));
        }
        return v;
    }
    if c == 'z' {
        let mut v: Vec<char> = Vec::new();
        v.push('2');
        proof {
            assert(v@ =~= spec_glyphs(c));
        }
        return v;
    }
    let v: Vec<char> = Vec::new();
    proof {
        assert(v@ =~= spec_glyphs(c));
    }
    v
}

/// The distinct valid domain characters reachable from a character by flipping one bit of its code.
pub open spec fn spec_bit_flips(c: char) -> Seq<char> {
    if c == '-' {
        seq!['m']
    } else if c == '0' {
        seq!['1', '2', '4', '8', 'p']
    } else if c == '1' {
        seq!['0', '3', '5', '9', 'q']
    } else if c == '2' {
        seq!['3', '0', '6', 'r']
    } else if c == '3' {
        seq!['2', '1', '7', 's']
    } else if c == '4' {
        seq!['5', '6', '0', 't']
    } else if c == '5' {
        seq!['4', '7', '1', 'u']
    } else if c == '6' {
        seq!['7', '4', '2', 'v']
    } else if c == '7' {
        seq!['6', '5', '3', 'w']
    } else if c == '8' {
        seq!['9', '0', 'x']
    } else if c == '9' {
        seq!['8', '1', 'y']
    } else if c == 'a' {
        seq!['c', 'e', 'i', 'q']
    } else if c == 'b' {
        seq!['c', 'f', 'j', 'r']
    } else if c == 'c' {
        seq!['b', 'a', 'g', 'k', 's']
    } else if c == 'd' {
        seq!['e', 'f', 'l', 't']
    } else if c == 'e' {
        seq!['d', 'g', 'a', 'm', 'u']
    } else if c == 'f' {
        seq!['g', 'd', 'b', 'n', 'v']
    } else if c == 'g' {
        seq!['f', 'e', 'c', 'o', 'w']
    } else if c == 'h' {
        seq!['i', 'j', 'l', 'x']
    } else if c == 'i' {
        seq!['h', 'k', 'm', 'a', 'y']
    } else if c == 'j' {
        seq!['k', 'h', 'n', 'b', 'z']
    } else if c == 'k' {
        seq!['j', 'i', 'o', 'c']
    } else if c == 'l' {
        seq!['m', 'n', 'h', 'd']
    } else if c == 'm' {
        seq!['l', 'o', 'i', 'e', '-']
    } else if c == 'n' {
        seq!['o', 'l', 'j', 'f']
    } else if c == 'o' {
        seq!['n', 'm', 'k', 'g']
    } else if c == 'p' {
        seq!['q', 'r', 't', 'x', '0']
    } else if c == 'q' {
        seq!['p', 's', 'u', 'y', 'a', '1']
    } else if c == 'r' {
        seq!['s', 'p', 'v', 'z', 'b', '2']
    } else if c == 's' {
        seq!['r', 'q', 'w', 'c', '3']
    } else if c == 't' {
        seq!['u', 'v', 'p', 'd', '4']
    } else if c == 'u' {
        seq!['t', 'w', 'q', 'e', '5']
    } else if c == 'v' {
        seq!['w', 't', 'r', 'f', '6']
    } else if c == 'w' {
        seq!['v', 'u', 's', 'g', '7']
    } else if c == 'x' {
        seq!['y', 'z', 'p', 'h', '8']
    } else if c == 'y' {
        seq!['x', 'q', 'i', '9']
    } else if c == 'z' {
        seq!['x', 'r', 'j']
    } else {
        Seq::empty()
    }
}

/// The distinct valid domain characters reachable from a character by flipping one bit of its code.
pub fn bit_flips(c: char) -> (r: Vec<char>)
    ensures
        r@ == spec_bit_flips(c),
{
    if c == '-' {
        let mut v: Vec<char> = Vec::new();
        v.push('m');
        proof {
            assert(v@ =~= spec_bit_flips(c));
        }
        return v;
    }
    if c == '0' {
        let mut v: Vec<char> = Vec::new();
        v.push('1');
        v.push('2');
        v.push('4');
        v.push('8');
        v.push('p');
        proof {
            assert(v@ =~= spec_bit_flips(c));
        }
        return v;
    }
    if c == '1' {
        let mut v: Vec<char> = Vec::new();
        v.push('0');
        v.push('3');
        v.push('5');
        v.push('9');
        v.push('q');
        proof {
            assert(v@ =~= spec_bit_flips(c));
        }
        return v;
    }
    if c == '2' {
        let mut v: Vec<char> = Vec::new();
        v.push('3');
        v.push('0');
        v.push('6');
        v.push('r');
        proof {
            assert(v@ =~= spec_bit_flips(c));
        }
        return v;
    }
    if c == '3' {
        let mut v: Vec<char> = Vec::new();
        v.push('2');
        v.push('1');
        v.push('7');
        v.push('s');
        proof {
            assert(v@ =~= spec_bit_flips(c));
        }
        return v;
    }
    if c == '4' {
        let mut v: Vec<char> = Vec::new();
        v.push('5');
        v.push('6');
        v.push('0');
        v.push('t');
        proof {
            assert(v@ =~= spec_bit_flips(c));
        }
        return v;
    }
    if c == '5' {
        let mut v: Vec<char> = Vec::new();
        v.push('4');
        v.push('7');
        v.push('1');
        v.push('u');
        proof {
            assert(v@ =~= spec_bit_flips(c));
        }
        return v;
    }
    if c == '6' {
        let mut v: Vec<char> = Vec::new();
        v.push('7');
        v.push('4');
        v.push('2');
        v.push('v');
        proof {
            assert(v@ =~= spec_bit_flips(c));
        }
        return v;
    }
    if c == '7' {
        let mut v: Vec<char> = Vec::new();
        v.push('6');
        v.push('5');
        v.push('3');
        v.push('w');
        proof {
            assert(v@ =~= spec_bit_flips(c));
        }
        return v;
    }
    if c == '8' {
        let mut v: Vec<char> = Vec::new();
        v.push('9');
        v.push('0');
        v.push('x');
        proof {
            assert(v@ =~= spec_bit_flips(c));
        }
        return v;
    }
    if c == '9' {
        let mut v: Vec<char> = Vec::new();
        v.push('8');
        v.push('1');
        v.push('y');
        proof {
            assert(v@ =~= spec_bit_flips(c));
        }
        return v;
    }
    if c == 'a' {
        let mut v: Vec<char> = Vec::new();
        v.push('c');
        v.push('e');
        v.push('i');
        v.push('q');
        proof {
            assert(v@ =~= spec_bit_flips(c));
        }
        return v;
    }
    if c == 'b' {
        let mut v: Vec<char> = Vec::new();
        v.push('c');
        v.push('f');
        v.push('j');
        v.push('r');
        proof {
            assert(v@ =~= spec_bit_flips(c));
        }
        return v;
    }
    if c == 'c' {
        let mut v: Vec<char> = Vec::new();
        v.push('b');
        v.push('a');
        v.push('g');
        v.push('k');
        v.push('s');
        proof {
            assert(v@ =~= spec_bit_flips(c));
        }
        return v;
    }
    if c == 'd' {
        let mut v: Vec<char> = Vec::new();
        v.push('e');
        v.push('f');
        v.push('l');
        v.push('t');
        proof {
            assert(v@ =~= spec_bit_flips(c));
        }
        return v;
    }
    if c == 'e' {
        let mut v: Vec<char> = Vec::new();
        v.push('d');
        v.push('g');
        v.push('a');
        v.push('m');
        v.push('u');
        proof {
            assert(v@ =~= spec_bit_flips(c));
        }
        return v;
    }
    if c == 'f' {
        let mut v: Vec<char> = Vec::new();
        v.push('g');
        v.push('d');
        v.push('b');
        v.push('n');
        v.push('v');
        proof {
            assert(v@ =~= spec_bit_flips(c));
        }
        return v;
    }
    if c == 'g' {
        let mut v: Vec<char> = Vec::new();
        v.push('f');
        v.push('e');
        v.push('c');
        v.push('o');
        v.push('w');
        proof {
            assert(v@ =~= spec_bit_flips(c));
        }
        return v;
    }
    if c == 'h' {
        let mut v: Vec<char> = Vec::new();
        v.push('i');
        v.push('j');
        v.push('l');
        v.push('x');
        proof {
            assert(v@ =~= spec_bit_flips(c));
        }
        return v;
    }
    if c == 'i' {
        let mut v: Vec<char> = Vec::new();
        v.push('h');
        v.push('k');
        v.push('m');
        v.push('a');
        v.push('y');
        proof {
            assert(v@ =~= spec_bit_flips(c));
        }
        return v;
    }
    if c == 'j' {
        let mut v: Vec<char> = Vec::new();
        v.push('k');
        v.push('h');
        v.push('n');
        v.push('b');
        v.push('z');
        proof {
            assert(v@ =~= spec_bit_flips(c));
        }
        return v;
    }
    if c == 'k' {
        let mut v: Vec<char> = Vec::new();
        v.push('j');
        v.push('i');
        v.push('o');
        v.push('c');
        proof {
            assert(v@ =~= spec_bit_flips(c));
        }
        return v;
    }
    if c == 'l' {
        let mut v: Vec<char> = Vec::new();
        v.push('m');
        v.push('n');
        v.push('h');
        v.push('d');
        proof {
            assert(v@ =~= spec_bit_flips(c));
        }
        return v;
    }
    if c == 'm' {
        let mut v: Vec<char> = Vec::new();
        v.push('l');
        v.push('o');
        v.push('i');
        v.push('e');
        v.push('-');
        proof {
            assert(v@ =~= spec_bit_flips(c));
        }
        return v;
    }
    if c == 'n' {
        let mut v: Vec<char> = Vec::new();
        v.push('o');
        v.push('l');
        v.push('j');
        v.push('f');
        proof {
            assert(v@ =~= spec_bit_flips(c));
        }
        return v;
    }
    if c == 'o' {
        let mut v: Vec<char> = Vec::new();
        v.push('n');
        v.push('m');
        v.push('k');
        v.push('g');
        proof {
            assert(v@ =~= spec_bit_flips(c));
        }
        return v;
    }
    if c == 'p' {
        let mut v: Vec<char> = Vec::new();
        v.push('q');
        v.push('r');
        v.push('t');
        v.push('x');
        v.push('0');
        proof {
            assert(v@ =~= spec_bit_flips(c));
        }
        return v;
    }
    if c == 'q' {
        let mut v: Vec<char> = Vec::new();
        v.push('p');
        v.push('s');
        v.push('u');
        v.push('y');
        v.push('a');
        v.push('1');
        proof {
            assert(v@ =~= spec_bit_flips(c));
        }
        return v;
    }
    if c == 'r' {
        let mut v: Vec<char> = Vec::new();
        v.push('s');
        v.push('p');
        v.push('v');
        v.push('z');
        v.push('b');
        v.push('2');
        proof {
            assert(v@ =~= spec_bit_flips(c));
        }
        return v;
    }
    if c == 's' {
        let mut v: Vec<char> = Vec::new();
        v.push('r');
        v.push('q');
        v.push('w');
        v.push('c');
        v.push('3');
        proof {
            assert(v@ =~= spec_bit_flips(c));
        }
        return v;
    }
    if c == 't' {
        let mut v: Vec<char> = Vec::new();
        v.push('u');
        v.push('v');
        v.push('p');
        v.push('d');
        v.push('4');
        proof {
            assert(v@ =~= spec_bit_flips(c));
        }
        return v;
    }
    if c == 'u' {
        let mut v: Vec<char> = Vec::new();
        v.push('t');
        v.push('w');
        v.push('q');
        v.push('e');
        v.push('5');
        proof {
            assert(v@ =~= spec_bit_flips(c));
        }
        return v;
    }
    if c == 'v' {
        let mut v: Vec<char> = Vec::new();
        v.push('w');
        v.push('t');
        v.push('r');
        v.push('f');
        v.push('6');
        proof {
            assert(v@ =~= spec_bit_flips(c));
        }
        return v;
    }
    if c == 'w' {
        let mut v: Vec<char> = Vec::new();
        v.push('v');
        v.push('u');
        v.push('s');
        v.push('g');
        v.push('7');
        proof {
            assert(v@ =~= spec_bit_flips(c));
        }
        return v;
    }
    if c == 'x' {
        let mut v: Vec<char> = Vec::new();
        v.push('y');
        v.push('z');
        v.push('p');
        v.push('h');
        v.push('8');
        proof {
            assert(v@ =~= spec_bit_flips(c));
        }
        return v;
    }
    if c == 'y' {
        let mut v: Vec<char> = Vec::new();
        v.push('x');
        v.push('q');
        v.push('i');
        v.push('9');
        proof {
            assert(v@ =~= spec_bit_flips(c));
        }
        return v;
    }
    if c == 'z' {
        let mut v: Vec<char> = Vec::new();
        v.push('x');
        v.push('r');
        v.push('j');
        proof {
            assert(v@ =~= spec_bit_flips(c));
        }
        return v;
    }
    let v: Vec<char> = Vec::new();
    proof {
        assert(v@ =~= spec_bit_flips(c));
    }
    v
}

/// The recognized public suffixes; multi-label suffixes contain their inner dot.
pub open spec fn spec_suffixes() -> Seq<Seq<char>> {
    seq![
        seq!['c', 'o', 'm'],
        seq!['n', 'e', 't'],
        seq!['o', 'r', 'g'],
        seq!['i', 'o'],
        seq!['c', 'o'],
        seq!['u', 'k'],
        seq!['d', 'e'],
        seq!['f', 'r'],
        seq!['i', 't'],
        seq!['n', 'l'],
        seq!['e', 'u'],
        seq!['u', 's'],
        seq!['c', 'a'],
        seq!['a', 'u'],
        seq!['j', 'p'],
        seq!['i', 'n', 'f', 'o'],
        seq!['b', 'i', 'z'],
        seq!['x', 'y', 'z'],
        seq!['o', 'n', 'l', 'i', 'n', 'e'],
        seq!['s', 'i', 't', 'e'],
        seq!['s', 'h', 'o', 'p'],
        seq!['a', 'p', 'p'],
        seq!['d', 'e', 'v'],
        seq!['a', 'i'],
        seq!['m', 'e'],
        seq!['t', 'v'],
        seq!['c', 'c'],
        seq!['e', 'd', 'u'],
        seq!['g', 'o', 'v'],
        seq!['c', 'o', '.', 'u', 'k'],
        seq!['o', 'r', 'g', '.', 'u', 'k'],
        seq!['a', 'c', '.', 'u', 'k'],
        seq!['c', 'o', 'm', '.', 'a', 'u'],
        seq!['c', 'o', '.', 'j', 'p'],
    ]
}

/// The recognized public suffixes; multi-label suffixes contain their inner dot.
#[verifier::rlimit(100)]
pub fn suffixes() -> (r: Vec<Vec<char>>)
    ensures
        r.deep_view() == spec_suffixes(),
{
    let mut r: Vec<Vec<char>> = Vec::new();
    let mut w: Vec<char> = Vec::new();
    w.push('c');
    w.push('o');
    w.push('m');
    r.push(w);
    let mut w: Vec<char> = Vec::new();
    w.push('n');
    w.push('e');
    w.push('t');
    r.push(w);
    let mut w: Vec<char> = Vec::new();
    w.push('o');
    w.push('r');
    w.push('g');
    r.push(w);
    let mut w: Vec<char> = Vec::new();
    w.push('i');
    w.push('o');
    r.push(w);
    let mut w: Vec<char> = Vec::new();
    w.push('c');
    w.push('o');
    r.push(w);
    let mut w: Vec<char> = Vec::new();
    w.push('u');
    w.push('k');
    r.push(w);
    let mut w: Vec<char> = Vec::new();
    w.push('d');
    w.push('e');
    r.push(w);
    let mut w: Vec<char> = Vec::new();
    w.push('f');
    w.push('r');
    r.push(w);
    let mut w: Vec<char> = Vec::new();
    w.push('i');
    w.push('t');
    r.push(w);
    let mut w: Vec<char> = Vec::new();
    w.push('n');
    w.push('l');
    r.push(w);
    let mut w: Vec<char> = Vec::new();
    w.push('e');
    w.push('u');
    r.push(w);
    let mut w: Vec<char> = Vec::new();
    w.push('u');
    w.push('s');
    r.push(w);
    let mut w: Vec<char> = Vec::new();
    w.push('c');
    w.push('a');
    r.push(w);
    let mut w: Vec<char> = Vec::new();
    w.push('a');
    w.push('u');
    r.push(w);
    let mut w: Vec<char> = Vec::new();
    w.push('j');
    w.push('p');
    r.push(w);
    let mut w: Vec<char> = Vec::new();
    w.push('i');
    w.push('n');
    w.push('f');
    w.push('o');
    r.push(w);
    let mut w: Vec<char> = Vec::new();
    w.push('b');
    w.push('i');
    w.push('z');
    r.push(w);
    let mut w: Vec<char> = Vec::new();
    w.push('x');
    w.push('y');
    w.push('z');
    r.push(w);
    let mut w: Vec<char> = Vec::new();
    w.push('o');
    w.push('n');
    w.push('l');
    w.push('i');
    w.push('n');
    w.push('e');
    r.push(w);
    let mut w: Vec<char> = Vec::new();
    w.push('s');
    w.push('i');
    w.push('t');
    w.push('e');
    r.push(w);
    let mut w: Vec<char> = Vec::new();
    w.push('s');
    w.push('h');
    w.push('o');
    w.push('p');
    r.push(w);
    let mut w: Vec<char> = Vec::new();
    w.push('a');
    w.push('p');
    w.push('p');
    r.push(w);
    let mut w: Vec<char> = Vec::new();
    w.push('d');
    w.push('e');
    w.push('v');
    r.push(w);
    let mut w: Vec<char> = Vec::new();
    w.push('a');
    w.push('i');
    r.push(w);
    let mut w: Vec<char> = Vec::new();
    w.push('m');
    w.push('e');
    r.push(w);
    let mut w: Vec<char> = Vec::new();
    w.push('t');
    w.push('v');
    r.push(w);
    let mut w: Vec<char> = Vec::new();
    w.push('c');
    w.push('c');
    r.push(w);
    let mut w: Vec<char> = Vec::new();
    w.push('e');
    w.push('d');
    w.push('u');
    r.push(w);
    let mut w: Vec<char> = Vec::new();
    w.push('g');
    w.push('o');
    w.push('v');
    r.push(w);
    let mut w: Vec<char> = Vec::new();
    w.push('c');
    w.push('o');
    w.push('.');
    w.push('u');
    w.push('k');
    r.push(w);
    let mut w: Vec<char> = Vec::new();
    w.push('o');
    w.push('r');
    w.push('g');
    w.push('.');
    w.push('u');
    w.push('k');
    r.push(w);
    let mut w: Vec<char> = Vec::new();
    w.push('a');
    w.push('c');
    w.push('.');
    w.push('u');
    w.push('k');
    r.push(w);
    let mut w: Vec<char> = Vec::new();
    w.push('c');
    w.push('o');
    w.push('m');
    w.push('.');
    w.push('a');
    w.push('u');
    r.push(w);
    let mut w: Vec<char> = Vec::new();
    w.push('c');
    w.push('o');
    w.push('.');
    w.push('j');
    w.push('p');
    r.push(w);
    proof {
        assert(r.deep_view() =~~= spec_suffixes());
    }
    r
}

/// Keywords appended to the root by the combosquatting strategy.
pub open spec fn spec_keywords() -> Seq<Seq<char>> {
    seq![
        seq!['l', 'o', 'g', 'i', 'n'],
        seq!['s', 'e', 'c', 'u', 'r', 'e'],
        seq!['m', 'a', 'i', 'l'],
        seq!['s', 'u', 'p', 'p', 'o', 'r', 't'],
        seq!['a', 'c', 'c', 'o', 'u', 'n', 't'],
        seq!['a', 'd', 'm', 'i', 'n'],
        seq!['v', 'e', 'r', 'i', 'f', 'y'],
        seq!['p', 'a', 'y'],
        seq!['o', 'n', 'l', 'i', 'n', 'e'],
        seq!['s', 'h', 'o', 'p'],
    ]
}

/// Keywords appended to the root by the combosquatting strategy.
#[verifier::rlimit(100)]
pub fn keywords() -> (r: Vec<Vec<char>>)
    ensures
        r.deep_view() == spec_keywords(),
{
    let mut r: Vec<Vec<char>> = Vec::new();
    let mut w: Vec<char> = Vec::new();
    w.push('l');
    w.push('o');
    w.push('g');
    w.push('i');
    w.push('n');
    r.push(w);
    let mut w: Vec<char> = Vec::new();
    w.push('s');
    w.push('e');
    w.push('c');
    w.push('u');
    w.push('r');
    w.push('e');
    r.push(w);
    let mut w: Vec<char> = Vec::new();
    w.push('m');
    w.push('a');
    w.push('i');
    w.push('l');
    r.push(w);
    let mut w: Vec<char> = Vec::new();
    w.push('s');
    w.push('u');
    w.push('p');
    w.push('p');
    w.push('o');
    w.push('r');
    w.push('t');
    r.push(w);
    let mut w: Vec<char> = Vec::new();
    w.push('a');
    w.push('c');
    w.push('c');
    w.push('o');
    w.push('u');
    w.push('n');
    w.push('t');
    r.push(w);
    let mut w: Vec<char> = Vec::new();
    w.push('a');
    w.push('d');
    w.push('m');
    w.push('i');
    w.push('n');
    r.push(w);
    let mut w: Vec<char> = Vec::new();
    w.push('v');
    w.push('e');
    w.push('r');
    w.push('i');
    w.push('f');
    w.push('y');
    r.push(w);
    let mut w: Vec<char> = Vec::new();
    w.push('p');
    w.push('a');
    w.push('y');
    r.push(w);
    let mut w: Vec<char> = Vec::new();
    w.push('o');
    w.push('n');
    w.push('l');
    w.push('i');
    w.push('n');
    w.push('e');
    r.push(w);
    let mut w: Vec<char> = Vec::new();
    w.push('s');
    w.push('h');
    w.push('o');
    w.push('p');
    r.push(w);
    proof {
        assert(r.deep_view() =~~= spec_keywords());
    }
    r
}

} // verus!
