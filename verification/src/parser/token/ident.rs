use vstd::prelude::*;

use crate::parser::token::chars_eq_str;

verus! {

/// A pseudo-keyword is an identifier that can act as a keyword in the right context.
/// Also known as contextual keywords
#[derive(Clone, Copy, Debug, PartialEq, Eq, Structural, PartialOrd, Ord)]
pub enum PseudoKeyword {
    Discard,
    Where,
    From,
    SelfType,
    Bool,
    U8,
    U16,
    U32,
    U64,
    I8,
    I16,
    I32,
    I64,
    F16,
    F32,
    F64,
    Vec,
    Mat,
    Uniform,
    Storage,
    Sampler,
    Texture1d,
    Texture2d,
    Texture2dArray,
    Texture3d,
    New,
}

impl PseudoKeyword {
    /// The spelling of the word.
    pub open spec fn spec_repr(&self) -> Seq<char> {
        match self {
            PseudoKeyword::Discard => seq!['_'],
            PseudoKeyword::Where => seq!['w', 'h', 'e', 'r', 'e'],
            PseudoKeyword::From => seq!['f', 'r', 'o', 'm'],
            PseudoKeyword::SelfType => seq!['S', 'e', 'l', 'f'],
            PseudoKeyword::Bool => seq!['b', 'o', 'o', 'l'],
            PseudoKeyword::U8 => seq!['u', '8'],
            PseudoKeyword::U16 => seq!['u', '1', '6'],
            PseudoKeyword::U32 => seq!['u', '3', '2'],
            PseudoKeyword::U64 => seq!['u', '6', '4'],
            PseudoKeyword::I8 => seq!['i', '8'],
            PseudoKeyword::I16 => seq!['i', '1', '6'],
            PseudoKeyword::I32 => seq!['i', '3', '2'],
            PseudoKeyword::I64 => seq!['i', '6', '4'],
            PseudoKeyword::F16 => seq!['f', '1', '6'],
            PseudoKeyword::F32 => seq!['f', '3', '2'],
            PseudoKeyword::F64 => seq!['f', '6', '4'],
            PseudoKeyword::Vec => seq!['v', 'e', 'c'],
            PseudoKeyword::Mat => seq!['m', 'a', 't'],
            PseudoKeyword::Uniform => seq!['u', 'n', 'i', 'f', 'o', 'r', 'm'],
            PseudoKeyword::Storage => seq!['s', 't', 'o', 'r', 'a', 'g', 'e'],
            PseudoKeyword::Sampler => seq!['s', 'a', 'm', 'p', 'l', 'e', 'r'],
            PseudoKeyword::Texture1d => seq!['t', 'e', 'x', 't', 'u', 'r', 'e', '_', '1', 'd'],
            PseudoKeyword::Texture2d => seq!['t', 'e', 'x', 't', 'u', 'r', 'e', '_', '2', 'd'],
            PseudoKeyword::Texture2dArray => seq!['t', 'e', 'x', 't', 'u', 'r', 'e', '_', '2', 'd', '_', 'a', 'r', 'r', 'a', 'y'],
            PseudoKeyword::Texture3d => seq!['t', 'e', 'x', 't', 'u', 'r', 'e', '_', '3', 'd'],
            PseudoKeyword::New => seq!['n', 'e', 'w'],
        }
    }

    /// The word spelled `text`, if there is one.
    pub open spec fn spec_from(text: Seq<char>) -> Option<Self> {
        if text == seq!['_'] {
            Some(PseudoKeyword::Discard)
        } else if text == seq!['w', 'h', 'e', 'r', 'e'] {
            Some(PseudoKeyword::Where)
        } else if text == seq!['f', 'r', 'o', 'm'] {
            Some(PseudoKeyword::From)
        } else if text == seq!['S', 'e', 'l', 'f'] {
            Some(PseudoKeyword::SelfType)
        } else if text == seq!['b', 'o', 'o', 'l'] {
            Some(PseudoKeyword::Bool)
        } else if text == seq!['u', '8'] {
            Some(PseudoKeyword::U8)
        } else if text == seq!['u', '1', '6'] {
            Some(PseudoKeyword::U16)
        } else if text == seq!['u', '3', '2'] {
            Some(PseudoKeyword::U32)
        } else if text == seq!['u', '6', '4'] {
            Some(PseudoKeyword::U64)
        } else if text == seq!['i', '8'] {
            Some(PseudoKeyword::I8)
        } else if text == seq!['i', '1', '6'] {
            Some(PseudoKeyword::I16)
        } else if text == seq!['i', '3', '2'] {
            Some(PseudoKeyword::I32)
        } else if text == seq!['i', '6', '4'] {
            Some(PseudoKeyword::I64)
        } else if text == seq!['f', '1', '6'] {
            Some(PseudoKeyword::F16)
        } else if text == seq!['f', '3', '2'] {
            Some(PseudoKeyword::F32)
        } else if text == seq!['f', '6', '4'] {
            Some(PseudoKeyword::F64)
        } else if text == seq!['v', 'e', 'c'] {
            Some(PseudoKeyword::Vec)
        } else if text == seq!['m', 'a', 't'] {
            Some(PseudoKeyword::Mat)
        } else if text == seq!['u', 'n', 'i', 'f', 'o', 'r', 'm'] {
            Some(PseudoKeyword::Uniform)
        } else if text == seq!['s', 't', 'o', 'r', 'a', 'g', 'e'] {
            Some(PseudoKeyword::Storage)
        } else if text == seq!['s', 'a', 'm', 'p', 'l', 'e', 'r'] {
            Some(PseudoKeyword::Sampler)
        } else if text == seq!['t', 'e', 'x', 't', 'u', 'r', 'e', '_', '1', 'd'] {
            Some(PseudoKeyword::Texture1d)
        } else if text == seq!['t', 'e', 'x', 't', 'u', 'r', 'e', '_', '2', 'd'] {
            Some(PseudoKeyword::Texture2d)
        } else if text == seq!['t', 'e', 'x', 't', 'u', 'r', 'e', '_', '2', 'd', '_', 'a', 'r', 'r', 'a', 'y'] {
            Some(PseudoKeyword::Texture2dArray)
        } else if text == seq!['t', 'e', 'x', 't', 'u', 'r', 'e', '_', '3', 'd'] {
            Some(PseudoKeyword::Texture3d)
        } else if text == seq!['n', 'e', 'w'] {
            Some(PseudoKeyword::New)
        } else {
            None
        }
    }

    /// Spelling a word and reading the spelling back gives the word, and only a word's
    /// spelling reads as that word.
    pub proof fn lemma_spelling_round_trip(k: Self, text: Seq<char>)
        ensures
            Self::spec_from(k.spec_repr()) == Some(k),
            Self::spec_from(text) == Some(k) ==> text == k.spec_repr(),
    {
        let r = k.spec_repr();
        assert(r.len() >= 1 && r[0] == k.spec_repr()[0]);
        if r.len() >= 2 {
            assert(r[1] == k.spec_repr()[1]);
        }
    }

    /// Every word, in declaration order.
    pub open spec fn all() -> Seq<Self> {
        seq![PseudoKeyword::Discard, PseudoKeyword::Where, PseudoKeyword::From, PseudoKeyword::SelfType, PseudoKeyword::Bool, PseudoKeyword::U8, PseudoKeyword::U16, PseudoKeyword::U32, PseudoKeyword::U64, PseudoKeyword::I8, PseudoKeyword::I16, PseudoKeyword::I32, PseudoKeyword::I64, PseudoKeyword::F16, PseudoKeyword::F32, PseudoKeyword::F64, PseudoKeyword::Vec, PseudoKeyword::Mat, PseudoKeyword::Uniform, PseudoKeyword::Storage, PseudoKeyword::Sampler, PseudoKeyword::Texture1d, PseudoKeyword::Texture2d, PseudoKeyword::Texture2dArray, PseudoKeyword::Texture3d, PseudoKeyword::New]
    }

    /// The word spelled `keyword`, if there is one.
    pub fn from(keyword: &[char]) -> (r: Option<Self>)
        ensures
            r == Self::spec_from(keyword@),
    {
        if chars_eq_str(keyword, "_") {
            proof {
                reveal_strlit("_");
                assert("_"@ =~= seq!['_']);
            }
            return Some(PseudoKeyword::Discard);
        }
        proof {
            reveal_strlit("_");
            assert("_"@ =~= seq!['_']);
        }
        if chars_eq_str(keyword, "where") {
            proof {
                reveal_strlit("where");
                assert("where"@ =~= seq!['w', 'h', 'e', 'r', 'e']);
            }
            return Some(PseudoKeyword::Where);
        }
        proof {
            reveal_strlit("where");
            assert("where"@ =~= seq!['w', 'h', 'e', 'r', 'e']);
        }
        if chars_eq_str(keyword, "from") {
            proof {
                reveal_strlit("from");
                assert("from"@ =~= seq!['f', 'r', 'o', 'm']);
            }
            return Some(PseudoKeyword::From);
        }
        proof {
            reveal_strlit("from");
            assert("from"@ =~= seq!['f', 'r', 'o', 'm']);
        }
        if chars_eq_str(keyword, "Self") {
            proof {
                reveal_strlit("Self");
                assert("Self"@ =~= seq!['S', 'e', 'l', 'f']);
            }
            return Some(PseudoKeyword::SelfType);
        }
        proof {
            reveal_strlit("Self");
            assert("Self"@ =~= seq!['S', 'e', 'l', 'f']);
        }
        if chars_eq_str(keyword, "bool") {
            proof {
                reveal_strlit("bool");
                assert("bool"@ =~= seq!['b', 'o', 'o', 'l']);
            }
            return Some(PseudoKeyword::Bool);
        }
        proof {
            reveal_strlit("bool");
            assert("bool"@ =~= seq!['b', 'o', 'o', 'l']);
        }
        if chars_eq_str(keyword, "u8") {
            proof {
                reveal_strlit("u8");
                assert("u8"@ =~= seq!['u', '8']);
            }
            return Some(PseudoKeyword::U8);
        }
        proof {
            reveal_strlit("u8");
            assert("u8"@ =~= seq!['u', '8']);
        }
        if chars_eq_str(keyword, "u16") {
            proof {
                reveal_strlit("u16");
                assert("u16"@ =~= seq!['u', '1', '6']);
            }
            return Some(PseudoKeyword::U16);
        }
        proof {
            reveal_strlit("u16");
            assert("u16"@ =~= seq!['u', '1', '6']);
        }
        if chars_eq_str(keyword, "u32") {
            proof {
                reveal_strlit("u32");
                assert("u32"@ =~= seq!['u', '3', '2']);
            }
            return Some(PseudoKeyword::U32);
        }
        proof {
            reveal_strlit("u32");
            assert("u32"@ =~= seq!['u', '3', '2']);
        }
        if chars_eq_str(keyword, "u64") {
            proof {
                reveal_strlit("u64");
                assert("u64"@ =~= seq!['u', '6', '4']);
            }
            return Some(PseudoKeyword::U64);
        }
        proof {
            reveal_strlit("u64");
            assert("u64"@ =~= seq!['u', '6', '4']);
        }
        if chars_eq_str(keyword, "i8") {
            proof {
                reveal_strlit("i8");
                assert("i8"@ =~= seq!['i', '8']);
            }
            return Some(PseudoKeyword::I8);
        }
        proof {
            reveal_strlit("i8");
            assert("i8"@ =~= seq!['i', '8']);
        }
        if chars_eq_str(keyword, "i16") {
            proof {
                reveal_strlit("i16");
                assert("i16"@ =~= seq!['i', '1', '6']);
            }
            return Some(PseudoKeyword::I16);
        }
        proof {
            reveal_strlit("i16");
            assert("i16"@ =~= seq!['i', '1', '6']);
        }
        if chars_eq_str(keyword, "i32") {
            proof {
                reveal_strlit("i32");
                assert("i32"@ =~= seq!['i', '3', '2']);
            }
            return Some(PseudoKeyword::I32);
        }
        proof {
            reveal_strlit("i32");
            assert("i32"@ =~= seq!['i', '3', '2']);
        }
        if chars_eq_str(keyword, "i64") {
            proof {
                reveal_strlit("i64");
                assert("i64"@ =~= seq!['i', '6', '4']);
            }
            return Some(PseudoKeyword::I64);
        }
        proof {
            reveal_strlit("i64");
            assert("i64"@ =~= seq!['i', '6', '4']);
        }
        if chars_eq_str(keyword, "f16") {
            proof {
                reveal_strlit("f16");
                assert("f16"@ =~= seq!['f', '1', '6']);
            }
            return Some(PseudoKeyword::F16);
        }
        proof {
            reveal_strlit("f16");
            assert("f16"@ =~= seq!['f', '1', '6']);
        }
        if chars_eq_str(keyword, "f32") {
            proof {
                reveal_strlit("f32");
                assert("f32"@ =~= seq!['f', '3', '2']);
            }
            return Some(PseudoKeyword::F32);
        }
        proof {
            reveal_strlit("f32");
            assert("f32"@ =~= seq!['f', '3', '2']);
        }
        if chars_eq_str(keyword, "f64") {
            proof {
                reveal_strlit("f64");
                assert("f64"@ =~= seq!['f', '6', '4']);
            }
            return Some(PseudoKeyword::F64);
        }
        proof {
            reveal_strlit("f64");
            assert("f64"@ =~= seq!['f', '6', '4']);
        }
        if chars_eq_str(keyword, "vec") {
            proof {
                reveal_strlit("vec");
                assert("vec"@ =~= seq!['v', 'e', 'c']);
            }
            return Some(PseudoKeyword::Vec);
        }
        proof {
            reveal_strlit("vec");
            assert("vec"@ =~= seq!['v', 'e', 'c']);
        }
        if chars_eq_str(keyword, "mat") {
            proof {
                reveal_strlit("mat");
                assert("mat"@ =~= seq!['m', 'a', 't']);
            }
            return Some(PseudoKeyword::Mat);
        }
        proof {
            reveal_strlit("mat");
            assert("mat"@ =~= seq!['m', 'a', 't']);
        }
        if chars_eq_str(keyword, "uniform") {
            proof {
                reveal_strlit("uniform");
                assert("uniform"@ =~= seq!['u', 'n', 'i', 'f', 'o', 'r', 'm']);
            }
            return Some(PseudoKeyword::Uniform);
        }
        proof {
            reveal_strlit("uniform");
            assert("uniform"@ =~= seq!['u', 'n', 'i', 'f', 'o', 'r', 'm']);
        }
        if chars_eq_str(keyword, "storage") {
            proof {
                reveal_strlit("storage");
                assert("storage"@ =~= seq!['s', 't', 'o', 'r', 'a', 'g', 'e']);
            }
            return Some(PseudoKeyword::Storage);
        }
        proof {
            reveal_strlit("storage");
            assert("storage"@ =~= seq!['s', 't', 'o', 'r', 'a', 'g', 'e']);
        }
        if chars_eq_str(keyword, "sampler") {
            proof {
                reveal_strlit("sampler");
                assert("sampler"@ =~= seq!['s', 'a', 'm', 'p', 'l', 'e', 'r']);
            }
            return Some(PseudoKeyword::Sampler);
        }
        proof {
            reveal_strlit("sampler");
            assert("sampler"@ =~= seq!['s', 'a', 'm', 'p', 'l', 'e', 'r']);
        }
        if chars_eq_str(keyword, "texture_1d") {
            proof {
                reveal_strlit("texture_1d");
                assert("texture_1d"@ =~= seq!['t', 'e', 'x', 't', 'u', 'r', 'e', '_', '1', 'd']);
            }
            return Some(PseudoKeyword::Texture1d);
        }
        proof {
            reveal_strlit("texture_1d");
            assert("texture_1d"@ =~= seq!['t', 'e', 'x', 't', 'u', 'r', 'e', '_', '1', 'd']);
        }
        if chars_eq_str(keyword, "texture_2d") {
            proof {
                reveal_strlit("texture_2d");
                assert("texture_2d"@ =~= seq!['t', 'e', 'x', 't', 'u', 'r', 'e', '_', '2', 'd']);
            }
            return Some(PseudoKeyword::Texture2d);
        }
        proof {
            reveal_strlit("texture_2d");
            assert("texture_2d"@ =~= seq!['t', 'e', 'x', 't', 'u', 'r', 'e', '_', '2', 'd']);
        }
        if chars_eq_str(keyword, "texture_2d_array") {
            proof {
                reveal_strlit("texture_2d_array");
                assert("texture_2d_array"@ =~= seq!['t', 'e', 'x', 't', 'u', 'r', 'e', '_', '2', 'd', '_', 'a', 'r', 'r', 'a', 'y']);
            }
            return Some(PseudoKeyword::Texture2dArray);
        }
        proof {
            reveal_strlit("texture_2d_array");
            assert("texture_2d_array"@ =~= seq!['t', 'e', 'x', 't', 'u', 'r', 'e', '_', '2', 'd', '_', 'a', 'r', 'r', 'a', 'y']);
        }
        if chars_eq_str(keyword, "texture_3d") {
            proof {
                reveal_strlit("texture_3d");
                assert("texture_3d"@ =~= seq!['t', 'e', 'x', 't', 'u', 'r', 'e', '_', '3', 'd']);
            }
            return Some(PseudoKeyword::Texture3d);
        }
        proof {
            reveal_strlit("texture_3d");
            assert("texture_3d"@ =~= seq!['t', 'e', 'x', 't', 'u', 'r', 'e', '_', '3', 'd']);
        }
        if chars_eq_str(keyword, "new") {
            proof {
                reveal_strlit("new");
                assert("new"@ =~= seq!['n', 'e', 'w']);
            }
            return Some(PseudoKeyword::New);
        }
        proof {
            reveal_strlit("new");
            assert("new"@ =~= seq!['n', 'e', 'w']);
        }
        None
    }

    /// The spelling of the word.
    pub fn repr(&self) -> (r: &'static str)
        ensures
            r@ == self.spec_repr(),
    {
        match self {
            PseudoKeyword::Discard => {
                proof {
                    reveal_strlit("_");
                    assert("_"@ =~= seq!['_']);
                }
                "_"
            },
            PseudoKeyword::Where => {
                proof {
                    reveal_strlit("where");
                    assert("where"@ =~= seq!['w', 'h', 'e', 'r', 'e']);
                }
                "where"
            },
            PseudoKeyword::From => {
                proof {
                    reveal_strlit("from");
                    assert("from"@ =~= seq!['f', 'r', 'o', 'm']);
                }
                "from"
            },
            PseudoKeyword::SelfType => {
                proof {
                    reveal_strlit("Self");
                    assert("Self"@ =~= seq!['S', 'e', 'l', 'f']);
                }
                "Self"
            },
            PseudoKeyword::Bool => {
                proof {
                    reveal_strlit("bool");
                    assert("bool"@ =~= seq!['b', 'o', 'o', 'l']);
                }
                "bool"
            },
            PseudoKeyword::U8 => {
                proof {
                    reveal_strlit("u8");
                    assert("u8"@ =~= seq!['u', '8']);
                }
                "u8"
            },
            PseudoKeyword::U16 => {
                proof {
                    reveal_strlit("u16");
                    assert("u16"@ =~= seq!['u', '1', '6']);
                }
                "u16"
            },
            PseudoKeyword::U32 => {
                proof {
                    reveal_strlit("u32");
                    assert("u32"@ =~= seq!['u', '3', '2']);
                }
                "u32"
            },
            PseudoKeyword::U64 => {
                proof {
                    reveal_strlit("u64");
                    assert("u64"@ =~= seq!['u', '6', '4']);
                }
                "u64"
            },
            PseudoKeyword::I8 => {
                proof {
                    reveal_strlit("i8");
                    assert("i8"@ =~= seq!['i', '8']);
                }
                "i8"
            },
            PseudoKeyword::I16 => {
                proof {
                    reveal_strlit("i16");
                    assert("i16"@ =~= seq!['i', '1', '6']);
                }
                "i16"
            },
            PseudoKeyword::I32 => {
                proof {
                    reveal_strlit("i32");
                    assert("i32"@ =~= seq!['i', '3', '2']);
                }
                "i32"
            },
            PseudoKeyword::I64 => {
                proof {
                    reveal_strlit("i64");
                    assert("i64"@ =~= seq!['i', '6', '4']);
                }
                "i64"
            },
            PseudoKeyword::F16 => {
                proof {
                    reveal_strlit("f16");
                    assert("f16"@ =~= seq!['f', '1', '6']);
                }
                "f16"
            },
            PseudoKeyword::F32 => {
                proof {
                    reveal_strlit("f32");
                    assert("f32"@ =~= seq!['f', '3', '2']);
                }
                "f32"
            },
            PseudoKeyword::F64 => {
                proof {
                    reveal_strlit("f64");
                    assert("f64"@ =~= seq!['f', '6', '4']);
                }
                "f64"
            },
            PseudoKeyword::Vec => {
                proof {
                    reveal_strlit("vec");
                    assert("vec"@ =~= seq!['v', 'e', 'c']);
                }
                "vec"
            },
            PseudoKeyword::Mat => {
                proof {
                    reveal_strlit("mat");
                    assert("mat"@ =~= seq!['m', 'a', 't']);
                }
                "mat"
            },
            PseudoKeyword::Uniform => {
                proof {
                    reveal_strlit("uniform");
                    assert("uniform"@ =~= seq!['u', 'n', 'i', 'f', 'o', 'r', 'm']);
                }
                "uniform"
            },
            PseudoKeyword::Storage => {
                proof {
                    reveal_strlit("storage");
                    assert("storage"@ =~= seq!['s', 't', 'o', 'r', 'a', 'g', 'e']);
                }
                "storage"
            },
            PseudoKeyword::Sampler => {
                proof {
                    reveal_strlit("sampler");
                    assert("sampler"@ =~= seq!['s', 'a', 'm', 'p', 'l', 'e', 'r']);
                }
                "sampler"
            },
            PseudoKeyword::Texture1d => {
                proof {
                    reveal_strlit("texture_1d");
                    assert("texture_1d"@ =~= seq!['t', 'e', 'x', 't', 'u', 'r', 'e', '_', '1', 'd']);
                }
                "texture_1d"
            },
            PseudoKeyword::Texture2d => {
                proof {
                    reveal_strlit("texture_2d");
                    assert("texture_2d"@ =~= seq!['t', 'e', 'x', 't', 'u', 'r', 'e', '_', '2', 'd']);
                }
                "texture_2d"
            },
            PseudoKeyword::Texture2dArray => {
                proof {
                    reveal_strlit("texture_2d_array");
                    assert("texture_2d_array"@ =~= seq!['t', 'e', 'x', 't', 'u', 'r', 'e', '_', '2', 'd', '_', 'a', 'r', 'r', 'a', 'y']);
                }
                "texture_2d_array"
            },
            PseudoKeyword::Texture3d => {
                proof {
                    reveal_strlit("texture_3d");
                    assert("texture_3d"@ =~= seq!['t', 'e', 'x', 't', 'u', 'r', 'e', '_', '3', 'd']);
                }
                "texture_3d"
            },
            PseudoKeyword::New => {
                proof {
                    reveal_strlit("new");
                    assert("new"@ =~= seq!['n', 'e', 'w']);
                }
                "new"
            },
        }
    }
}

} // verus!
