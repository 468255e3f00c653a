//! Naming conventions of multi-word identifiers: how the words are written, what joins
//! them, and where one word ends and the next begins.

use vstd::prelude::*;

verus! {

/// How the letters of the words of an identifier are written.
#[derive(Clone, Copy, Debug, PartialEq, Eq, Hash, Structural)]
pub enum Pattern {
    /// Every letter is lower case.
    Lowercase,
    /// Every letter is upper case.
    Uppercase,
    /// The first letter of every word is upper case, the others lower case.
    Capital,
    /// The first letter of the first word only is upper case.
    Sentence,
    /// As `Capital`, but the first word is all lower case.
    Camel,
    /// Upper and lower case take turns, letter by letter.
    Alternating,
    /// The first letter of every word is lower case, the others upper case.
    Toggle,
}

/// A place in an identifier where one word ends and the next begins.
#[derive(Clone, Copy, Debug, PartialEq, Eq, Hash, Structural)]
pub enum Boundary {
    /// At a space, which is dropped.
    Space,
    /// At an underscore `_`, which is dropped.
    Underscore,
    /// At a hyphen `-`, which is dropped.
    Hyphen,
    /// Between a lower case letter and an upper case letter that follows it.
    LowerUpper,
    /// Before the last of a run of upper case letters that a lower case letter follows.
    Acronym,
    /// Between a lower case letter and a digit that follows it.
    LowerDigit,
    /// Between an upper case letter and a digit that follows it.
    UpperDigit,
    /// Between a digit and a lower case letter that follows it.
    DigitLower,
    /// Between a digit and an upper case letter that follows it.
    DigitUpper,
}

/// A naming convention: a pattern for the letters, a delimiter between the words, and
/// the boundaries at which an identifier written in it falls into words.
#[derive(Clone, Copy, Debug, PartialEq, Eq, Hash, Structural)]
pub enum Case {
    /// `MY VARIABLE NAME`
    Upper,
    /// `my variable name`
    Lower,
    /// `My Variable Name`
    Title,
    /// `My variable name`
    Sentence,
    /// `mY vARIABLE nAME`
    Toggle,
    /// `myVariableName`
    Camel,
    /// `MyVariableName`
    Pascal,
    /// Another name for `Pascal`.
    UpperCamel,
    /// `my_variable_name`
    Snake,
    /// `MY_VARIABLE_NAME`
    Constant,
    /// Another name for `Constant`.
    UpperSnake,
    /// `my-variable-name`
    Kebab,
    /// `MY-VARIABLE-NAME`
    Cobol,
    /// Another name for `Cobol`.
    UpperKebab,
    /// `My-Variable-Name`
    Train,
    /// `myvariablename`
    Flat,
    /// `MYVARIABLENAME`
    UpperFlat,
    /// `mY vArIaBlE nAmE`
    Alternating,
}

impl Case {
    /// The delimiter of the case, as a sequence of characters.
    pub open spec fn delim_spec(self) -> Seq<char> {
        match self {
            Case::Upper | Case::Lower | Case::Title | Case::Sentence | Case::Toggle
            | Case::Alternating => seq![' '],
            Case::Snake | Case::Constant | Case::UpperSnake => seq!['_'],
            Case::Kebab | Case::Cobol | Case::UpperKebab | Case::Train => seq!['-'],
            Case::UpperFlat | Case::Flat | Case::Camel | Case::UpperCamel | Case::Pascal => seq![],
        }
    }

    /// The pattern of the case.
    pub open spec fn pattern_spec(self) -> Pattern {
        match self {
            Case::Upper | Case::Constant | Case::UpperSnake | Case::UpperFlat | Case::Cobol
            | Case::UpperKebab => Pattern::Uppercase,
            Case::Lower | Case::Snake | Case::Kebab | Case::Flat => Pattern::Lowercase,
            Case::Title | Case::Pascal | Case::UpperCamel | Case::Train => Pattern::Capital,
            Case::Camel => Pattern::Camel,
            Case::Toggle => Pattern::Toggle,
            Case::Alternating => Pattern::Alternating,
            Case::Sentence => Pattern::Sentence,
        }
    }

    /// The boundaries of the case, in the order in which they are tried.
    pub open spec fn boundaries_spec(self) -> Seq<Boundary> {
        match self {
            Case::Upper | Case::Lower | Case::Title | Case::Sentence | Case::Toggle
            | Case::Alternating => seq![Boundary::Space],
            Case::Snake | Case::Constant | Case::UpperSnake => seq![Boundary::Underscore],
            Case::Kebab | Case::Cobol | Case::UpperKebab | Case::Train => seq![Boundary::Hyphen],
            Case::UpperFlat | Case::Flat => seq![],
            Case::Camel | Case::UpperCamel | Case::Pascal => seq![
                Boundary::LowerUpper,
                Boundary::Acronym,
                Boundary::LowerDigit,
                Boundary::UpperDigit,
                Boundary::DigitLower,
                Boundary::DigitUpper,
            ],
        }
    }

    /// Every case, each once, in the order of their declaration.
    pub open spec fn all_cases_spec() -> Seq<Case> {
        seq![
            Case::Upper,
            Case::Lower,
            Case::Title,
            Case::Sentence,
            Case::Toggle,
            Case::Camel,
            Case::Pascal,
            Case::UpperCamel,
            Case::Snake,
            Case::Constant,
            Case::UpperSnake,
            Case::Kebab,
            Case::Cobol,
            Case::UpperKebab,
            Case::Train,
            Case::Flat,
            Case::UpperFlat,
            Case::Alternating,
        ]
    }

    /// The place of a case in `all_cases_spec`.
    pub open spec fn ordinal(self) -> int {
        match self {
            Case::Upper => 0,
            Case::Lower => 1,
            Case::Title => 2,
            Case::Sentence => 3,
            Case::Toggle => 4,
            Case::Camel => 5,
            Case::Pascal => 6,
            Case::UpperCamel => 7,
            Case::Snake => 8,
            Case::Constant => 9,
            Case::UpperSnake => 10,
            Case::Kebab => 11,
            Case::Cobol => 12,
            Case::UpperKebab => 13,
            Case::Train => 14,
            Case::Flat => 15,
            Case::UpperFlat => 16,
            Case::Alternating => 17,
        }
    }

    /// The string that joins the words of an identifier in this case: a space, an
    /// underscore, a hyphen, or nothing.
    pub fn delim(&self) -> (r: &'static str)
        ensures
            r@ == self.delim_spec(),
    {
        proof {
            reveal_strlit(" ");
            reveal_strlit("_");
            reveal_strlit("-");
            reveal_strlit("");
        }
        let r = match self {
            Case::Upper | Case::Lower | Case::Title | Case::Sentence | Case::Toggle
            | Case::Alternating => " ",
            Case::Snake | Case::Constant | Case::UpperSnake => "_",
            Case::Kebab | Case::Cobol | Case::UpperKebab | Case::Train => "-",
            Case::UpperFlat | Case::Flat | Case::Camel | Case::UpperCamel | Case::Pascal => "",
        };
        assert(r@ =~= self.delim_spec());
        r
    }

    /// The pattern in which the words of an identifier in this case are written.
    pub fn pattern(&self) -> (r: Pattern)
        ensures
            r == self.pattern_spec(),
    {
        match self {
            Case::Upper | Case::Constant | Case::UpperSnake | Case::UpperFlat | Case::Cobol
            | Case::UpperKebab => Pattern::Uppercase,
            Case::Lower | Case::Snake | Case::Kebab | Case::Flat => Pattern::Lowercase,
            Case::Title | Case::Pascal | Case::UpperCamel | Case::Train => Pattern::Capital,
            Case::Camel => Pattern::Camel,
            Case::Toggle => Pattern::Toggle,
            Case::Alternating => Pattern::Alternating,
            Case::Sentence => Pattern::Sentence,
        }
    }

    /// The boundaries at which an identifier in this case falls into words.
    pub fn boundaries(&self) -> (r: Vec<Boundary>)
        ensures
            r@ == self.boundaries_spec(),
    {
        let r = match self {
            Case::Upper | Case::Lower | Case::Title | Case::Sentence | Case::Toggle
            | Case::Alternating => vec![Boundary::Space],
            Case::Snake | Case::Constant | Case::UpperSnake => vec![Boundary::Underscore],
            Case::Kebab | Case::Cobol | Case::UpperKebab | Case::Train => vec![Boundary::Hyphen],
            Case::UpperFlat | Case::Flat => Vec::new(),
            Case::Camel | Case::UpperCamel | Case::Pascal => vec![
                Boundary::LowerUpper,
                Boundary::Acronym,
                Boundary::LowerDigit,
                Boundary::UpperDigit,
                Boundary::DigitLower,
                Boundary::DigitUpper,
            ],
        };
        assert(r@ =~= self.boundaries_spec());
        r
    }

    /// Every case, each exactly once.
    pub fn all_cases() -> (r: Vec<Case>)
        ensures
            r@ == Self::all_cases_spec(),
            forall|c: Case| r@.contains(c),
            r@.no_duplicates(),
    {
        let r = Self::deterministic_cases();
        proof {
            Self::lemma_all_cases_complete();
        }
        r
    }

    /// Every case whose result does not depend on chance; that is every case.
    pub fn deterministic_cases() -> (r: Vec<Case>)
        ensures
            r@ == Self::all_cases_spec(),
    {
        let r = vec![
            Case::Upper,
            Case::Lower,
            Case::Title,
            Case::Sentence,
            Case::Toggle,
            Case::Camel,
            Case::Pascal,
            Case::UpperCamel,
            Case::Snake,
            Case::Constant,
            Case::UpperSnake,
            Case::Kebab,
            Case::Cobol,
            Case::UpperKebab,
            Case::Train,
            Case::Flat,
            Case::UpperFlat,
            Case::Alternating,
        ];
        assert(r@ =~= Self::all_cases_spec());
        r
    }

    /// `all_cases_spec` lists every case, and none twice: each case stands at its
    /// ordinal and nowhere else.
    pub proof fn lemma_all_cases_complete()
        ensures
            Self::all_cases_spec().len() == 18,
            forall|c: Case| 0 <= c.ordinal() < 18 && Self::all_cases_spec()[c.ordinal()] == c,
            forall|c: Case| Self::all_cases_spec().contains(c),
            Self::all_cases_spec().no_duplicates(),
    {
        let s = Self::all_cases_spec();
        assert(s.len() == 18);
        assert forall|c: Case| 0 <= c.ordinal() < 18 && s[c.ordinal()] == c by {}
        assert forall|c: Case| s.contains(c) by {
            assert(s[c.ordinal()] == c);
        }
        assert forall|i: int, j: int| 0 <= i < s.len() && 0 <= j < s.len() && i != j implies s[i]
            != s[j] by {
            assert(s[i].ordinal() == i);
            assert(s[j].ordinal() == j);
        }
    }
}

} // verus!
