//! The symbol table: which characters can be sent, and the dot/dash string
//! of each.

use vstd::prelude::*;
use vstd::pervasive::unreached;
use vstd::std_specs::iter::IteratorSpec;
use vstd::string::{is_ascii_spec_bytes, StringSliceAdditionalSpecFns};
use core::str::Chars;

verus! {

/// The two marks a Morse character is made of.
pub enum Symbols {
    /// The short mark.
    S1,
    /// The long mark.
    S2,
}

impl Symbols {
    /// How a short mark is written in a symbol string.
    pub const DOT: char = '.';

    /// How a long mark is written in a symbol string.
    pub const DASH: char = '_';

    /// The character that stands for this mark in a symbol string.
    pub open spec fn glyph(self) -> char {
        match self {
            Symbols::S1 => Symbols::DOT,
            Symbols::S2 => Symbols::DASH,
        }
    }

    /// Whether `c` is one of the two marks.
    pub open spec fn is_symbol(c: char) -> bool {
        c == Symbols::DOT || c == Symbols::DASH
    }

    /// Whether every element of `s` is a mark.
    pub open spec fn all_symbols(s: Seq<char>) -> bool {
        forall|i: int| 0 <= i < s.len() ==> Symbols::is_symbol(#[trigger] s[i])
    }

    /// The character that stands for this mark in a symbol string.
    pub fn as_char(&self) -> (c: char)
        ensures
            c == self.glyph(),
            Symbols::is_symbol(c),
    {
        match self {
            Symbols::S1 => Symbols::DOT,
            Symbols::S2 => Symbols::DASH,
        }
    }
}

/// The symbol string of one character: a short run of dots and dashes.
pub struct Sequence(&'static str);

impl View for Sequence {
    type V = Seq<char>;

    closed spec fn view(&self) -> Seq<char> {
        self.0@
    }
}

impl Sequence {
    #[verifier::type_invariant]
    spec fn holds_marks_only(&self) -> bool {
        &&& 0 < self.0@.len() <= 7
        &&& Symbols::all_symbols(self.0@)
    }

    /// The symbol string of `ascii`, for exactly the characters that have one:
    /// the encodable characters other than the space.
    pub fn of(ascii: &char) -> (r: Option<Sequence>)
        ensures
            r is Some <==> Code::encodable(*ascii) && *ascii != ' ',
            r matches Some(s) ==> s@ == Code::symbols(*ascii),
    {
        if *ascii != ' ' && Code::is_valid_ascii(ascii) {
            let symbols = Code::char_to_symbol(ascii);
            proof {
                Code::lemma_symbols(*ascii);
            }
            Some(Sequence(symbols))
        } else {
            None
        }
    }

    /// Walks the marks from first to last.
    #[inline(always)]
    pub fn chars(&self) -> (r: Chars<'_>)
        ensures
            r.remaining() == self@,
            r.decrease() is Some,
            r.initial_value_relation(&r),
            0 < self@.len() <= 7,
            Symbols::all_symbols(self@),
    {
        proof {
            use_type_invariant(self);
        }
        self.0.chars()
    }

    /// The number of marks.
    #[inline(always)]
    pub fn len(&self) -> (n: usize)
        ensures
            n == self@.len(),
            0 < n <= 7,
    {
        proof {
            use_type_invariant(self);
            is_ascii_spec_bytes(self.0);
        }
        self.0.len()
    }
}

/// The code table itself. It has no state: everything hangs off the type.
pub struct Code();

impl Code {
    /// Every character the tape accepts: letters, digits, punctuation, and
    /// the space that separates words.
    #[allow(non_upper_case_globals)]
    pub const VALID_CHARACTERS: [char; 55] = [
        'a', 'b', 'c', 'd', 'e', 'f', 'g', 'h', 'i', 'j', 'k', 'l',
        'm', 'n', 'o', 'p', 'q', 'r', 's', 't', 'u', 'v', 'w', 'x',
        'y', 'z',
        '0', '1', '2', '3', '4', '5', '6', '7', '8', '9',
        '.', ',', '?', '\'', '!', '/', '(', ')', '&', ':', ';', '=',
        '+', '-', '_', '"', '$', '@',
        ' ',
    ];

    /// The accepted alphabet: lowercase letters, digits, eighteen punctuation
    /// marks and the space.
    pub open spec fn encodable(c: char) -> bool {
        ||| 'a' <= c <= 'z'
        ||| '0' <= c <= '9'
        ||| c == '.' || c == ',' || c == '?' || c == '\'' || c == '!' || c == '/'
        ||| c == '(' || c == ')' || c == '&' || c == ':' || c == ';' || c == '='
        ||| c == '+' || c == '-' || c == '_' || c == '"' || c == '$' || c == '@'
        ||| c == ' '
    }

    /// International Morse Code, one entry per character that has a symbol
    /// string. Every other character, the space included, maps to the empty
    /// sequence.
    pub open spec fn symbols(c: char) -> Seq<char> {
        match c {
            'a' => "._"@,
            'b' => "_..."@,
            'c' => "_._."@,
            'd' => "_.."@,
            'e' => "."@,
            'f' => ".._."@,
            'g' => "__."@,
            'h' => "...."@,
            'i' => ".."@,
            'j' => ".___"@,
            'k' => "_._"@,
            'l' => "._.."@,
            'm' => "__"@,
            'n' => "_."@,
            'o' => "___"@,
            'p' => ".__."@,
            'q' => "__._"@,
            'r' => "._."@,
            's' => "..."@,
            't' => "_"@,
            'u' => ".._"@,
            'v' => "..._"@,
            'w' => ".__"@,
            'x' => "_.._"@,
            'y' => "_.__"@,
            'z' => "__.."@,
            '0' => "_____"@,
            '1' => ".____"@,
            '2' => "..___"@,
            '3' => "...__"@,
            '4' => "...._"@,
            '5' => "....."@,
            '6' => "_...."@,
            '7' => "__..."@,
            '8' => "___.."@,
            '9' => "____."@,
            '.' => "._._._"@,
            ',' => "__..__"@,
            '?' => "..__.."@,
            '\'' => ".____."@,
            '!' => "_._.__"@,
            '/' => "_.._."@,
            '(' => "_.__."@,
            ')' => "_.__._"@,
            '&' => "._..."@,
            ':' => "___..."@,
            ';' => "_._._."@,
            '=' => "_..._"@,
            '+' => "._._."@,
            '-' => "_...._"@,
            '_' => "..__._"@,
            '"' => "._.._."@,
            '$' => "..._.._"@,
            '@' => ".__._."@,
            _ => Seq::empty(),
        }
    }

    /// `VALID_CHARACTERS` lists the accepted alphabet, no more and no less.
    pub proof fn lemma_valid_characters(c: char)
        ensures
            Code::VALID_CHARACTERS@.contains(c) <==> Code::encodable(c),
    {
    }

    /// Every encodable character but the space has a symbol string, no other
    /// character has one, and a symbol string is one to seven marks long and
    /// holds nothing but dots and dashes.
    pub proof fn lemma_symbols(c: char)
        ensures
            Code::symbols(c).len() > 0 <==> Code::encodable(c) && c != ' ',
            Code::symbols(c).len() <= 7,
            Symbols::all_symbols(Code::symbols(c)),
    {
        reveal_strlit("._");
        reveal_strlit("_...");
        reveal_strlit("_._.");
        reveal_strlit("_..");
        reveal_strlit(".");
        reveal_strlit(".._.");
        reveal_strlit("__.");
        reveal_strlit("....");
        reveal_strlit("..");
        reveal_strlit(".___");
        reveal_strlit("_._");
        reveal_strlit("._..");
        reveal_strlit("__");
        reveal_strlit("_.");
        reveal_strlit("___");
        reveal_strlit(".__.");
        reveal_strlit("__._");
        reveal_strlit("._.");
        reveal_strlit("...");
        reveal_strlit("_");
        reveal_strlit(".._");
        reveal_strlit("..._");
        reveal_strlit(".__");
        reveal_strlit("_.._");
        reveal_strlit("_.__");
        reveal_strlit("__..");
        reveal_strlit("_____");
        reveal_strlit(".____");
        reveal_strlit("..___");
        reveal_strlit("...__");
        reveal_strlit("...._");
        reveal_strlit(".....");
        reveal_strlit("_....");
        reveal_strlit("__...");
        reveal_strlit("___..");
        reveal_strlit("____.");
        reveal_strlit("._._._");
        reveal_strlit("__..__");
        reveal_strlit("..__..");
        reveal_strlit(".____.");
        reveal_strlit("_._.__");
        reveal_strlit("_.._.");
        reveal_strlit("_.__.");
        reveal_strlit("_.__._");
        reveal_strlit("._...");
        reveal_strlit("___...");
        reveal_strlit("_._._.");
        reveal_strlit("_..._");
        reveal_strlit("._._.");
        reveal_strlit("_...._");
        reveal_strlit("..__._");
        reveal_strlit("._.._.");
        reveal_strlit("..._.._");
        reveal_strlit(".__._.");
    }

    /// No two characters share a symbol string: what is played can be told
    /// apart by ear.
    pub proof fn lemma_symbols_distinct(a: char, b: char)
        requires
            Code::symbols(a).len() > 0,
            Code::symbols(a) == Code::symbols(b),
        ensures
            a == b,
    {
        let sa = Code::symbols(a);
        let sb = Code::symbols(b);
        reveal_strlit("._");
        reveal_strlit("_...");
        reveal_strlit("_._.");
        reveal_strlit("_..");
        reveal_strlit(".");
        reveal_strlit(".._.");
        reveal_strlit("__.");
        reveal_strlit("....");
        reveal_strlit("..");
        reveal_strlit(".___");
        reveal_strlit("_._");
        reveal_strlit("._..");
        reveal_strlit("__");
        reveal_strlit("_.");
        reveal_strlit("___");
        reveal_strlit(".__.");
        reveal_strlit("__._");
        reveal_strlit("._.");
        reveal_strlit("...");
        reveal_strlit("_");
        reveal_strlit(".._");
        reveal_strlit("..._");
        reveal_strlit(".__");
        reveal_strlit("_.._");
        reveal_strlit("_.__");
        reveal_strlit("__..");
        reveal_strlit("_____");
        reveal_strlit(".____");
        reveal_strlit("..___");
        reveal_strlit("...__");
        reveal_strlit("...._");
        reveal_strlit(".....");
        reveal_strlit("_....");
        reveal_strlit("__...");
        reveal_strlit("___..");
        reveal_strlit("____.");
        reveal_strlit("._._._");
        reveal_strlit("__..__");
        reveal_strlit("..__..");
        reveal_strlit(".____.");
        reveal_strlit("_._.__");
        reveal_strlit("_.._.");
        reveal_strlit("_.__.");
        reveal_strlit("_.__._");
        reveal_strlit("._...");
        reveal_strlit("___...");
        reveal_strlit("_._._.");
        reveal_strlit("_..._");
        reveal_strlit("._._.");
        reveal_strlit("_...._");
        reveal_strlit("..__._");
        reveal_strlit("._.._.");
        reveal_strlit("..._.._");
        reveal_strlit(".__._.");
        assert(sa.len() == sb.len());
        assert(sa[0] == sb[0] && sa[1] == sb[1] && sa[2] == sb[2] && sa[3] == sb[3]);
        assert(sa[4] == sb[4] && sa[5] == sb[5] && sa[6] == sb[6]);
    }

    /// Whether the tape accepts `ascii`.
    #[inline(always)]
    pub fn is_valid_ascii(ascii: &char) -> (r: bool)
        ensures
            r == Code::encodable(*ascii),
    {
        let mut i: usize = 0;
        while i < 55
            invariant
                i <= 55,
                forall|j: int| 0 <= j < i ==> Code::VALID_CHARACTERS@[j] != *ascii,
            decreases 55 - i,
        {
            if Code::VALID_CHARACTERS[i] == *ascii {
                proof {
                    Code::lemma_valid_characters(*ascii);
                }
                return true;
            }
            i += 1;
        }
        proof {
            Code::lemma_valid_characters(*ascii);
        }
        false
    }

    /// The symbol string of `ascii`. Only characters that have one may be
    /// looked up: the space is encodable but stands for a pause, not for marks.
    #[inline(always)]
    pub fn char_to_symbol(ascii: &char) -> (r: &'static str)
        requires
            Code::encodable(*ascii),
            *ascii != ' ',
        ensures
            r@ == Code::symbols(*ascii),
    {
        match ascii {
            'a' => "._",
            'b' => "_...",
            'c' => "_._.",
            'd' => "_..",
            'e' => ".",
            'f' => ".._.",
            'g' => "__.",
            'h' => "....",
            'i' => "..",
            'j' => ".___",
            'k' => "_._",
            'l' => "._..",
            'm' => "__",
            'n' => "_.",
            'o' => "___",
            'p' => ".__.",
            'q' => "__._",
            'r' => "._.",
            's' => "...",
            't' => "_",
            'u' => ".._",
            'v' => "..._",
            'w' => ".__",
            'x' => "_.._",
            'y' => "_.__",
            'z' => "__..",
            '0' => "_____",
            '1' => ".____",
            '2' => "..___",
            '3' => "...__",
            '4' => "...._",
            '5' => ".....",
            '6' => "_....",
            '7' => "__...",
            '8' => "___..",
            '9' => "____.",
            '.' => "._._._",
            ',' => "__..__",
            '?' => "..__..",
            '\'' => ".____.",
            '!' => "_._.__",
            '/' => "_.._.",
            '(' => "_.__.",
            ')' => "_.__._",
            '&' => "._...",
            ':' => "___...",
            ';' => "_._._.",
            '=' => "_..._",
            '+' => "._._.",
            '-' => "_...._",
            '_' => "..__._",
            '"' => "._.._.",
            '$' => "..._.._",
            '@' => ".__._.",
            _ => unreached(),
        }
    }
}

} // verus!
