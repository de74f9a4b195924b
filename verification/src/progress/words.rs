use vstd::prelude::*;
use vstd::string::StringSliceAdditionalSpecFns;
use crate::grammar::lexical::{keyword, lemma_agreement_bounds, literal};

verus! {

/// A word that is not empty and matches ends behind where it starts.
pub proof fn lemma_literal_progress(s: Seq<u8>, p: int, word: Seq<u8>)
    requires
        0 <= p <= s.len(),
        word.len() > 0,
    ensures
        literal(s, p, word).ok ==> p < literal(s, p, word).end <= s.len(),
{
    lemma_agreement_bounds(s, p, word, 0);
}

/// A keyword that is not empty and matches ends behind where it starts.
pub proof fn lemma_keyword_progress(s: Seq<u8>, p: int, word: Seq<u8>)
    requires
        0 <= p <= s.len(),
        word.len() > 0,
    ensures
        keyword(s, p, word).ok ==> p < keyword(s, p, word).end <= s.len(),
{
    lemma_agreement_bounds(s, p, word, 0);
}

/// The word `def` is not empty.
pub proof fn lemma_word_def()
    ensures
        "def".spec_bytes().len() == 3,
{
    reveal_strlit("def");
    let s = "def";
    assert(s@.len() == 3);
    assert(vstd::string::is_ascii(s)) by {
        assert(vstd::utf8::is_ascii_chars(s@));
    }
    vstd::string::is_ascii_spec_bytes(s);
}

/// The word `alias` is not empty.
pub proof fn lemma_word_alias()
    ensures
        "alias".spec_bytes().len() == 5,
{
    reveal_strlit("alias");
    let s = "alias";
    assert(s@.len() == 5);
    assert(vstd::string::is_ascii(s)) by {
        assert(vstd::utf8::is_ascii_chars(s@));
    }
    vstd::string::is_ascii_spec_bytes(s);
}

/// The word `attr_reader` is not empty.
pub proof fn lemma_word_attr_reader()
    ensures
        "attr_reader".spec_bytes().len() == 11,
{
    reveal_strlit("attr_reader");
    let s = "attr_reader";
    assert(s@.len() == 11);
    assert(vstd::string::is_ascii(s)) by {
        assert(vstd::utf8::is_ascii_chars(s@));
    }
    vstd::string::is_ascii_spec_bytes(s);
}

/// The word `attr_writer` is not empty.
pub proof fn lemma_word_attr_writer()
    ensures
        "attr_writer".spec_bytes().len() == 11,
{
    reveal_strlit("attr_writer");
    let s = "attr_writer";
    assert(s@.len() == 11);
    assert(vstd::string::is_ascii(s)) by {
        assert(vstd::utf8::is_ascii_chars(s@));
    }
    vstd::string::is_ascii_spec_bytes(s);
}

/// The word `attr_accessor` is not empty.
pub proof fn lemma_word_attr_accessor()
    ensures
        "attr_accessor".spec_bytes().len() == 13,
{
    reveal_strlit("attr_accessor");
    let s = "attr_accessor";
    assert(s@.len() == 13);
    assert(vstd::string::is_ascii(s)) by {
        assert(vstd::utf8::is_ascii_chars(s@));
    }
    vstd::string::is_ascii_spec_bytes(s);
}

/// The word `include` is not empty.
pub proof fn lemma_word_include()
    ensures
        "include".spec_bytes().len() == 7,
{
    reveal_strlit("include");
    let s = "include";
    assert(s@.len() == 7);
    assert(vstd::string::is_ascii(s)) by {
        assert(vstd::utf8::is_ascii_chars(s@));
    }
    vstd::string::is_ascii_spec_bytes(s);
}

/// The word `extend` is not empty.
pub proof fn lemma_word_extend()
    ensures
        "extend".spec_bytes().len() == 6,
{
    reveal_strlit("extend");
    let s = "extend";
    assert(s@.len() == 6);
    assert(vstd::string::is_ascii(s)) by {
        assert(vstd::utf8::is_ascii_chars(s@));
    }
    vstd::string::is_ascii_spec_bytes(s);
}

/// The word `class` is not empty.
pub proof fn lemma_word_class()
    ensures
        "class".spec_bytes().len() == 5,
{
    reveal_strlit("class");
    let s = "class";
    assert(s@.len() == 5);
    assert(vstd::string::is_ascii(s)) by {
        assert(vstd::utf8::is_ascii_chars(s@));
    }
    vstd::string::is_ascii_spec_bytes(s);
}

/// The word `module` is not empty.
pub proof fn lemma_word_module()
    ensures
        "module".spec_bytes().len() == 6,
{
    reveal_strlit("module");
    let s = "module";
    assert(s@.len() == 6);
    assert(vstd::string::is_ascii(s)) by {
        assert(vstd::utf8::is_ascii_chars(s@));
    }
    vstd::string::is_ascii_spec_bytes(s);
}

/// The word `self` is not empty.
pub proof fn lemma_word_self()
    ensures
        "self".spec_bytes().len() == 4,
{
    reveal_strlit("self");
    let s = "self";
    assert(s@.len() == 4);
    assert(vstd::string::is_ascii(s)) by {
        assert(vstd::utf8::is_ascii_chars(s@));
    }
    vstd::string::is_ascii_spec_bytes(s);
}

/// The word `singleton` is not empty.
pub proof fn lemma_word_singleton()
    ensures
        "singleton".spec_bytes().len() == 9,
{
    reveal_strlit("singleton");
    let s = "singleton";
    assert(s@.len() == 9);
    assert(vstd::string::is_ascii(s)) by {
        assert(vstd::utf8::is_ascii_chars(s@));
    }
    vstd::string::is_ascii_spec_bytes(s);
}

/// The word `unchecked` is not empty.
pub proof fn lemma_word_unchecked()
    ensures
        "unchecked".spec_bytes().len() == 9,
{
    reveal_strlit("unchecked");
    let s = "unchecked";
    assert(s@.len() == 9);
    assert(vstd::string::is_ascii(s)) by {
        assert(vstd::utf8::is_ascii_chars(s@));
    }
    vstd::string::is_ascii_spec_bytes(s);
}

/// The word `out` is not empty.
pub proof fn lemma_word_out()
    ensures
        "out".spec_bytes().len() == 3,
{
    reveal_strlit("out");
    let s = "out";
    assert(s@.len() == 3);
    assert(vstd::string::is_ascii(s)) by {
        assert(vstd::utf8::is_ascii_chars(s@));
    }
    vstd::string::is_ascii_spec_bytes(s);
}

/// The word `in` is not empty.
pub proof fn lemma_word_in()
    ensures
        "in".spec_bytes().len() == 2,
{
    reveal_strlit("in");
    let s = "in";
    assert(s@.len() == 2);
    assert(vstd::string::is_ascii(s)) by {
        assert(vstd::utf8::is_ascii_chars(s@));
    }
    vstd::string::is_ascii_spec_bytes(s);
}

/// The word `true` is not empty.
pub proof fn lemma_word_true()
    ensures
        "true".spec_bytes().len() == 4,
{
    reveal_strlit("true");
    let s = "true";
    assert(s@.len() == 4);
    assert(vstd::string::is_ascii(s)) by {
        assert(vstd::utf8::is_ascii_chars(s@));
    }
    vstd::string::is_ascii_spec_bytes(s);
}

/// The word `false` is not empty.
pub proof fn lemma_word_false()
    ensures
        "false".spec_bytes().len() == 5,
{
    reveal_strlit("false");
    let s = "false";
    assert(s@.len() == 5);
    assert(vstd::string::is_ascii(s)) by {
        assert(vstd::utf8::is_ascii_chars(s@));
    }
    vstd::string::is_ascii_spec_bytes(s);
}

} // verus!
