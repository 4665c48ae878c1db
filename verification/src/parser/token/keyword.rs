use vstd::prelude::*;

use crate::parser::token::chars_eq_str;

verus! {

/// A reserved word of the language.
#[derive(Clone, Copy, Debug, PartialEq, Eq, Structural, PartialOrd, Ord)]
pub enum Keyword {
    Mod,
    Use,
    Fn,
    Type,
    Struct,
    Enum,
    Let,
    Static,
    Const,
    Trait,
    Impl,
    Mut,
    As,
    True,
    False,
    SelfValue,
}

impl Keyword {
    /// The spelling of the word.
    pub open spec fn spec_repr(&self) -> Seq<char> {
        match self {
            Keyword::Mod => seq!['m', 'o', 'd'],
            Keyword::Use => seq!['u', 's', 'e'],
            Keyword::Fn => seq!['f', 'n'],
            Keyword::Type => seq!['t', 'y', 'p', 'e'],
            Keyword::Struct => seq!['s', 't', 'r', 'u', 'c', 't'],
            Keyword::Enum => seq!['e', 'n', 'u', 'm'],
            Keyword::Let => seq!['l', 'e', 't'],
            Keyword::Static => seq!['s', 't', 'a', 't', 'i', 'c'],
            Keyword::Const => seq!['c', 'o', 'n', 's', 't'],
            Keyword::Trait => seq!['t', 'r', 'a', 'i', 't'],
            Keyword::Impl => seq!['i', 'm', 'p', 'l'],
            Keyword::Mut => seq!['m', 'u', 't'],
            Keyword::As => seq!['a', 's'],
            Keyword::True => seq!['t', 'r', 'u', 'e'],
            Keyword::False => seq!['f', 'a', 'l', 's', 'e'],
            Keyword::SelfValue => seq!['s', 'e', 'l', 'f'],
        }
    }

    /// The word spelled `text`, if there is one.
    pub open spec fn spec_from(text: Seq<char>) -> Option<Self> {
        if text == seq!['m', 'o', 'd'] {
            Some(Keyword::Mod)
        } else if text == seq!['u', 's', 'e'] {
            Some(Keyword::Use)
        } else if text == seq!['f', 'n'] {
            Some(Keyword::Fn)
        } else if text == seq!['t', 'y', 'p', 'e'] {
            Some(Keyword::Type)
        } else if text == seq!['s', 't', 'r', 'u', 'c', 't'] {
            Some(Keyword::Struct)
        } else if text == seq!['e', 'n', 'u', 'm'] {
            Some(Keyword::Enum)
        } else if text == seq!['l', 'e', 't'] {
            Some(Keyword::Let)
        } else if text == seq!['s', 't', 'a', 't', 'i', 'c'] {
            Some(Keyword::Static)
        } else if text == seq!['c', 'o', 'n', 's', 't'] {
            Some(Keyword::Const)
        } else if text == seq!['t', 'r', 'a', 'i', 't'] {
            Some(Keyword::Trait)
        } else if text == seq!['i', 'm', 'p', 'l'] {
            Some(Keyword::Impl)
        } else if text == seq!['m', 'u', 't'] {
            Some(Keyword::Mut)
        } else if text == seq!['a', 's'] {
            Some(Keyword::As)
        } else if text == seq!['t', 'r', 'u', 'e'] {
            Some(Keyword::True)
        } else if text == seq!['f', 'a', 'l', 's', 'e'] {
            Some(Keyword::False)
        } else if text == seq!['s', 'e', 'l', 'f'] {
            Some(Keyword::SelfValue)
        } else {
            None
        }
    }

    /// Spelling a word and reading the spelling back gives the word, and only a word's
    /// spelling reads as that word.
    pub proof fn lemma_spelling_round_trip(k: Self, text: Seq<char>)
        ensures
            Self::spec_from(k.spec_repr()) == Some(k),
            Self::spec_from(text) == Some(k) ==> text == k.spec_repr(),
    {
        let r = k.spec_repr();
        assert(r.len() >= 2 && r[0] == k.spec_repr()[0] && r[1] == k.spec_repr()[1]);
    }

    /// Every word, in declaration order.
    pub open spec fn all() -> Seq<Self> {
        seq![Keyword::Mod, Keyword::Use, Keyword::Fn, Keyword::Type, Keyword::Struct, Keyword::Enum, Keyword::Let, Keyword::Static, Keyword::Const, Keyword::Trait, Keyword::Impl, Keyword::Mut, Keyword::As, Keyword::True, Keyword::False, Keyword::SelfValue]
    }

    /// The word spelled `keyword`, if there is one.
    pub fn from(keyword: &[char]) -> (r: Option<Self>)
        ensures
            r == Self::spec_from(keyword@),
    {
        if chars_eq_str(keyword, "mod") {
            proof {
                reveal_strlit("mod");
                assert("mod"@ =~= seq!['m', 'o', 'd']);
            }
            return Some(Keyword::Mod);
        }
        proof {
            reveal_strlit("mod");
            assert("mod"@ =~= seq!['m', 'o', 'd']);
        }
        if chars_eq_str(keyword, "use") {
            proof {
                reveal_strlit("use");
                assert("use"@ =~= seq!['u', 's', 'e']);
            }
            return Some(Keyword::Use);
        }
        proof {
            reveal_strlit("use");
            assert("use"@ =~= seq!['u', 's', 'e']);
        }
        if chars_eq_str(keyword, "fn") {
            proof {
                reveal_strlit("fn");
                assert("fn"@ =~= seq!['f', 'n']);
            }
            return Some(Keyword::Fn);
        }
        proof {
            reveal_strlit("fn");
            assert("fn"@ =~= seq!['f', 'n']);
        }
        if chars_eq_str(keyword, "type") {
            proof {
                reveal_strlit("type");
                assert("type"@ =~= seq!['t', 'y', 'p', 'e']);
            }
            return Some(Keyword::Type);
        }
        proof {
            reveal_strlit("type");
            assert("type"@ =~= seq!['t', 'y', 'p', 'e']);
        }
        if chars_eq_str(keyword, "struct") {
            proof {
                reveal_strlit("struct");
                assert("struct"@ =~= seq!['s', 't', 'r', 'u', 'c', 't']);
            }
            return Some(Keyword::Struct);
        }
        proof {
            reveal_strlit("struct");
            assert("struct"@ =~= seq!['s', 't', 'r', 'u', 'c', 't']);
        }
        if chars_eq_str(keyword, "enum") {
            proof {
                reveal_strlit("enum");
                assert("enum"@ =~= seq!['e', 'n', 'u', 'm']);
            }
            return Some(Keyword::Enum);
        }
        proof {
            reveal_strlit("enum");
            assert("enum"@ =~= seq!['e', 'n', 'u', 'm']);
        }
        if chars_eq_str(keyword, "let") {
            proof {
                reveal_strlit("let");
                assert("let"@ =~= seq!['l', 'e', 't']);
            }
            return Some(Keyword::Let);
        }
        proof {
            reveal_strlit("let");
            assert("let"@ =~= seq!['l', 'e', 't']);
        }
        if chars_eq_str(keyword, "static") {
            proof {
                reveal_strlit("static");
                assert("static"@ =~= seq!['s', 't', 'a', 't', 'i', 'c']);
            }
            return Some(Keyword::Static);
        }
        proof {
            reveal_strlit("static");
            assert("static"@ =~= seq!['s', 't', 'a', 't', 'i', 'c']);
        }
        if chars_eq_str(keyword, "const") {
            proof {
                reveal_strlit("const");
                assert("const"@ =~= seq!['c', 'o', 'n', 's', 't']);
            }
            return Some(Keyword::Const);
        }
        proof {
            reveal_strlit("const");
            assert("const"@ =~= seq!['c', 'o', 'n', 's', 't']);
        }
        if chars_eq_str(keyword, "trait") {
            proof {
                reveal_strlit("trait");
                assert("trait"@ =~= seq!['t', 'r', 'a', 'i', 't']);
            }
            return Some(Keyword::Trait);
        }
        proof {
            reveal_strlit("trait");
            assert("trait"@ =~= seq!['t', 'r', 'a', 'i', 't']);
        }
        if chars_eq_str(keyword, "impl") {
            proof {
                reveal_strlit("impl");
                assert("impl"@ =~= seq!['i', 'm', 'p', 'l']);
            }
            return Some(Keyword::Impl);
        }
        proof {
            reveal_strlit("impl");
            assert("impl"@ =~= seq!['i', 'm', 'p', 'l']);
        }
        if chars_eq_str(keyword, "mut") {
            proof {
                reveal_strlit("mut");
                assert("mut"@ =~= seq!['m', 'u', 't']);
            }
            return Some(Keyword::Mut);
        }
        proof {
            reveal_strlit("mut");
            assert("mut"@ =~= seq!['m', 'u', 't']);
        }
        if chars_eq_str(keyword, "as") {
            proof {
                reveal_strlit("as");
                assert("as"@ =~= seq!['a', 's']);
            }
            return Some(Keyword::As);
        }
        proof {
            reveal_strlit("as");
            assert("as"@ =~= seq!['a', 's']);
        }
        if chars_eq_str(keyword, "true") {
            proof {
                reveal_strlit("true");
                assert("true"@ =~= seq!['t', 'r', 'u', 'e']);
            }
            return Some(Keyword::True);
        }
        proof {
            reveal_strlit("true");
            assert("true"@ =~= seq!['t', 'r', 'u', 'e']);
        }
        if chars_eq_str(keyword, "false") {
            proof {
                reveal_strlit("false");
                assert("false"@ =~= seq!['f', 'a', 'l', 's', 'e']);
            }
            return Some(Keyword::False);
        }
        proof {
            reveal_strlit("false");
            assert("false"@ =~= seq!['f', 'a', 'l', 's', 'e']);
        }
        if chars_eq_str(keyword, "self") {
            proof {
                reveal_strlit("self");
                assert("self"@ =~= seq!['s', 'e', 'l', 'f']);
            }
            return Some(Keyword::SelfValue);
        }
        proof {
            reveal_strlit("self");
            assert("self"@ =~= seq!['s', 'e', 'l', 'f']);
        }
        None
    }

    /// The spelling of the word.
    pub fn repr(&self) -> (r: &'static str)
        ensures
            r@ == self.spec_repr(),
    {
        match self {
            Keyword::Mod => {
                proof {
                    reveal_strlit("mod");
                    assert("mod"@ =~= seq!['m', 'o', 'd']);
                }
                "mod"
            },
            Keyword::Use => {
                proof {
                    reveal_strlit("use");
                    assert("use"@ =~= seq!['u', 's', 'e']);
                }
                "use"
            },
            Keyword::Fn => {
                proof {
                    reveal_strlit("fn");
                    assert("fn"@ =~= seq!['f', 'n']);
                }
                "fn"
            },
            Keyword::Type => {
                proof {
                    reveal_strlit("type");
                    assert("type"@ =~= seq!['t', 'y', 'p', 'e']);
                }
                "type"
            },
            Keyword::Struct => {
                proof {
                    reveal_strlit("struct");
                    assert("struct"@ =~= seq!['s', 't', 'r', 'u', 'c', 't']);
                }
                "struct"
            },
            Keyword::Enum => {
                proof {
                    reveal_strlit("enum");
                    assert("enum"@ =~= seq!['e', 'n', 'u', 'm']);
                }
                "enum"
            },
            Keyword::Let => {
                proof {
                    reveal_strlit("let");
                    assert("let"@ =~= seq!['l', 'e', 't']);
                }
                "let"
            },
            Keyword::Static => {
                proof {
                    reveal_strlit("static");
                    assert("static"@ =~= seq!['s', 't', 'a', 't', 'i', 'c']);
                }
                "static"
            },
            Keyword::Const => {
                proof {
                    reveal_strlit("const");
                    assert("const"@ =~= seq!['c', 'o', 'n', 's', 't']);
                }
                "const"
            },
            Keyword::Trait => {
                proof {
                    reveal_strlit("trait");
                    assert("trait"@ =~= seq!['t', 'r', 'a', 'i', 't']);
                }
                "trait"
            },
            Keyword::Impl => {
                proof {
                    reveal_strlit("impl");
                    assert("impl"@ =~= seq!['i', 'm', 'p', 'l']);
                }
                "impl"
            },
            Keyword::Mut => {
                proof {
                    reveal_strlit("mut");
                    assert("mut"@ =~= seq!['m', 'u', 't']);
                }
                "mut"
            },
            Keyword::As => {
                proof {
                    reveal_strlit("as");
                    assert("as"@ =~= seq!['a', 's']);
                }
                "as"
            },
            Keyword::True => {
                proof {
                    reveal_strlit("true");
                    assert("true"@ =~= seq!['t', 'r', 'u', 'e']);
                }
                "true"
            },
            Keyword::False => {
                proof {
                    reveal_strlit("false");
                    assert("false"@ =~= seq!['f', 'a', 'l', 's', 'e']);
                }
                "false"
            },
            Keyword::SelfValue => {
                proof {
                    reveal_strlit("self");
                    assert("self"@ =~= seq!['s', 'e', 'l', 'f']);
                }
                "self"
            },
        }
    }
}

} // verus!
