use vstd::prelude::*;
use vstd::string::StringSliceAdditionalSpecFns;
use crate::grammar::lexical::{
    byte, keyword, literal, one, run, trivia, Class, AT, COLON, DOT, LEFT_PAREN, QUESTION,
    RIGHT_PAREN,
};
use crate::grammar::step::{join, opt};
use crate::grammar::{members, names, types};
use crate::nesting::forest::{
    lemma_byte_nested, lemma_join_nested, lemma_keyword_nested, lemma_literal_nested,
    lemma_one_nested, lemma_opt_nested, lemma_run_nested, lemma_trivia_nested,
};
use crate::progress::words::{
    lemma_keyword_progress, lemma_word_def, lemma_word_alias, lemma_word_attr_reader,
    lemma_word_attr_writer, lemma_word_attr_accessor, lemma_word_include, lemma_word_extend,
    lemma_word_self,
};

verus! {

/// `receiver_self` matches nothing empty.
pub proof fn lemma_receiver_self_progress(s: Seq<u8>, p: int)
    requires
        0 <= p <= s.len(),
    ensures
        members::receiver_self(s, p).ok ==> p < members::receiver_self(s, p).end <= s.len(),
{
    reveal(members::receiver_self);
    crate::nesting::members::lemma_receiver_self_nested(s, p);
    lemma_keyword_nested(s, p, "self".spec_bytes());
    lemma_word_self();
    lemma_keyword_progress(s, p, "self".spec_bytes());
    let a = keyword(s, p, "self".spec_bytes());
    if a.ok {
        lemma_trivia_nested(s, a.end);
    }
    crate::nesting::forest::lemma_join_nested(s, p, a, trivia(s, a.end));
    let b = join(a, trivia(s, a.end));
    if b.ok {
        lemma_byte_nested(s, b.end, DOT);
    }
    crate::nesting::forest::lemma_join_nested(s, p, b, byte(s, b.end, DOT));
    let c = join(b, byte(s, b.end, DOT));
}

/// `receiver_self_or_instance` matches nothing empty.
pub proof fn lemma_receiver_self_or_instance_progress(s: Seq<u8>, p: int)
    requires
        0 <= p <= s.len(),
    ensures
        members::receiver_self_or_instance(s, p).ok ==> p < members::receiver_self_or_instance(s, p).end <= s.len(),
{
    reveal(members::receiver_self_or_instance);
    crate::nesting::members::lemma_receiver_self_or_instance_nested(s, p);
    lemma_keyword_nested(s, p, "self".spec_bytes());
    lemma_word_self();
    lemma_keyword_progress(s, p, "self".spec_bytes());
    let a = keyword(s, p, "self".spec_bytes());
    if a.ok {
        lemma_trivia_nested(s, a.end);
    }
    crate::nesting::forest::lemma_join_nested(s, p, a, trivia(s, a.end));
    let b = join(a, trivia(s, a.end));
    if b.ok {
        lemma_byte_nested(s, b.end, QUESTION);
    }
    crate::nesting::forest::lemma_join_nested(s, p, b, byte(s, b.end, QUESTION));
    let c = join(b, byte(s, b.end, QUESTION));
    if c.ok {
        lemma_trivia_nested(s, c.end);
    }
    crate::nesting::forest::lemma_join_nested(s, p, c, trivia(s, c.end));
    let d = join(c, trivia(s, c.end));
    if d.ok {
        lemma_byte_nested(s, d.end, DOT);
    }
    crate::nesting::forest::lemma_join_nested(s, p, d, byte(s, d.end, DOT));
    let e = join(d, byte(s, d.end, DOT));
}

/// `method_name` matches nothing empty.
pub proof fn lemma_method_name_progress(s: Seq<u8>, p: int)
    requires
        0 <= p <= s.len(),
    ensures
        members::method_name(s, p).ok ==> p < members::method_name(s, p).end <= s.len(),
{
    reveal(members::method_name);
    crate::nesting::members::lemma_method_name_nested(s, p);
    crate::nesting::names::lemma_lower_ident_nested(s, p);
    crate::progress::names::lemma_lower_ident_progress(s, p);
    let a = names::lower_ident(s, p);
    if a.ok {
        lemma_one_nested(s, a.end, Class::Suffix);
        lemma_opt_nested(s, a.end, one(s, a.end, Class::Suffix));
    }
    crate::nesting::forest::lemma_join_nested(s, p, a, opt(a.end, one(s, a.end, Class::Suffix)));
    let b = join(a, opt(a.end, one(s, a.end, Class::Suffix)));
}

/// `params` matches nothing empty.
pub proof fn lemma_params_progress(s: Seq<u8>, p: int)
    requires
        0 <= p <= s.len(),
    ensures
        members::params(s, p).ok ==> p < members::params(s, p).end <= s.len(),
{
    reveal(members::params);
    crate::nesting::members::lemma_params_nested(s, p);
    lemma_byte_nested(s, p, LEFT_PAREN);
    let a = byte(s, p, LEFT_PAREN);
    if a.ok {
        lemma_trivia_nested(s, a.end);
    }
    crate::nesting::forest::lemma_join_nested(s, p, a, trivia(s, a.end));
    let b = join(a, trivia(s, a.end));
    if b.ok {
        crate::nesting::members::lemma_spaced_type_list_nested(s, b.end);
        lemma_opt_nested(s, b.end, members::spaced_type_list(s, b.end));
    }
    crate::nesting::forest::lemma_join_nested(
        s,
        p,
        b,
        opt(b.end, members::spaced_type_list(s, b.end)),
    );
    let c = join(b, opt(b.end, members::spaced_type_list(s, b.end)));
    if c.ok {
        lemma_byte_nested(s, c.end, RIGHT_PAREN);
    }
    crate::nesting::forest::lemma_join_nested(s, p, c, byte(s, c.end, RIGHT_PAREN));
    let d = join(c, byte(s, c.end, RIGHT_PAREN));
}

/// `method_type` matches nothing empty.
pub proof fn lemma_method_type_progress(s: Seq<u8>, p: int)
    requires
        0 <= p <= s.len(),
    ensures
        members::method_type(s, p).ok ==> p < members::method_type(s, p).end <= s.len(),
{
    reveal(members::method_type);
    crate::nesting::members::lemma_method_type_nested(s, p);
    crate::nesting::members::lemma_params_nested(s, p);
    crate::progress::members::lemma_params_progress(s, p);
    let a = members::params(s, p);
    if a.ok {
        lemma_trivia_nested(s, a.end);
    }
    crate::nesting::forest::lemma_join_nested(s, p, a, trivia(s, a.end));
    let b = join(a, trivia(s, a.end));
    if b.ok {
        lemma_literal_nested(s, b.end, "->".spec_bytes());
    }
    crate::nesting::forest::lemma_join_nested(s, p, b, literal(s, b.end, "->".spec_bytes()));
    let c = join(b, literal(s, b.end, "->".spec_bytes()));
    if c.ok {
        lemma_trivia_nested(s, c.end);
    }
    crate::nesting::forest::lemma_join_nested(s, p, c, trivia(s, c.end));
    let d = join(c, trivia(s, c.end));
    if d.ok {
        crate::nesting::types::lemma_type_expr_nested(s, d.end);
    }
    crate::nesting::forest::lemma_join_nested(s, p, d, types::type_expr(s, d.end));
    let e = join(d, types::type_expr(s, d.end));
}

/// `member_method` matches nothing empty.
pub proof fn lemma_member_method_progress(s: Seq<u8>, p: int)
    requires
        0 <= p <= s.len(),
    ensures
        members::member_method(s, p).ok ==> p < members::member_method(s, p).end <= s.len(),
{
    reveal(members::member_method);
    crate::nesting::members::lemma_member_method_nested(s, p);
    lemma_keyword_nested(s, p, "def".spec_bytes());
    lemma_word_def();
    lemma_keyword_progress(s, p, "def".spec_bytes());
    let a = keyword(s, p, "def".spec_bytes());
    if a.ok {
        lemma_trivia_nested(s, a.end);
    }
    crate::nesting::forest::lemma_join_nested(s, p, a, trivia(s, a.end));
    let b = join(a, trivia(s, a.end));
    if b.ok {
        crate::nesting::members::lemma_spaced_receiver_nested(s, b.end);
        lemma_opt_nested(s, b.end, members::spaced_receiver(s, b.end));
    }
    crate::nesting::forest::lemma_join_nested(
        s,
        p,
        b,
        opt(b.end, members::spaced_receiver(s, b.end)),
    );
    let c = join(b, opt(b.end, members::spaced_receiver(s, b.end)));
    if c.ok {
        crate::nesting::members::lemma_method_name_nested(s, c.end);
    }
    crate::nesting::forest::lemma_join_nested(s, p, c, members::method_name(s, c.end));
    let d = join(c, members::method_name(s, c.end));
    if d.ok {
        lemma_trivia_nested(s, d.end);
    }
    crate::nesting::forest::lemma_join_nested(s, p, d, trivia(s, d.end));
    let e = join(d, trivia(s, d.end));
    if e.ok {
        lemma_byte_nested(s, e.end, COLON);
    }
    crate::nesting::forest::lemma_join_nested(s, p, e, byte(s, e.end, COLON));
    let f = join(e, byte(s, e.end, COLON));
    if f.ok {
        lemma_trivia_nested(s, f.end);
    }
    crate::nesting::forest::lemma_join_nested(s, p, f, trivia(s, f.end));
    let g = join(f, trivia(s, f.end));
    if g.ok {
        crate::nesting::members::lemma_method_type_nested(s, g.end);
    }
    crate::nesting::forest::lemma_join_nested(s, p, g, members::method_type(s, g.end));
    let h = join(g, members::method_type(s, g.end));
}

/// `method_ref` matches nothing empty.
pub proof fn lemma_method_ref_progress(s: Seq<u8>, p: int)
    requires
        0 <= p <= s.len(),
    ensures
        members::method_ref(s, p).ok ==> p < members::method_ref(s, p).end <= s.len(),
{
    reveal(members::method_ref);
    crate::nesting::members::lemma_method_ref_nested(s, p);
    crate::nesting::members::lemma_spaced_receiver_self_nested(s, p);
    lemma_opt_nested(s, p, members::spaced_receiver_self(s, p));
    let a = opt(p, members::spaced_receiver_self(s, p));
    if a.ok {
        crate::nesting::members::lemma_method_name_nested(s, a.end);
        crate::progress::members::lemma_method_name_progress(s, a.end);
    }
    crate::nesting::forest::lemma_join_nested(s, p, a, members::method_name(s, a.end));
    let b = join(a, members::method_name(s, a.end));
}

/// `member_alias` matches nothing empty.
pub proof fn lemma_member_alias_progress(s: Seq<u8>, p: int)
    requires
        0 <= p <= s.len(),
    ensures
        members::member_alias(s, p).ok ==> p < members::member_alias(s, p).end <= s.len(),
{
    reveal(members::member_alias);
    crate::nesting::members::lemma_member_alias_nested(s, p);
    lemma_keyword_nested(s, p, "alias".spec_bytes());
    lemma_word_alias();
    lemma_keyword_progress(s, p, "alias".spec_bytes());
    let a = keyword(s, p, "alias".spec_bytes());
    if a.ok {
        lemma_trivia_nested(s, a.end);
    }
    crate::nesting::forest::lemma_join_nested(s, p, a, trivia(s, a.end));
    let b = join(a, trivia(s, a.end));
    if b.ok {
        crate::nesting::members::lemma_method_ref_nested(s, b.end);
    }
    crate::nesting::forest::lemma_join_nested(s, p, b, members::method_ref(s, b.end));
    let c = join(b, members::method_ref(s, b.end));
    if c.ok {
        lemma_trivia_nested(s, c.end);
    }
    crate::nesting::forest::lemma_join_nested(s, p, c, trivia(s, c.end));
    let d = join(c, trivia(s, c.end));
    if d.ok {
        crate::nesting::members::lemma_method_ref_nested(s, d.end);
    }
    crate::nesting::forest::lemma_join_nested(s, p, d, members::method_ref(s, d.end));
    let e = join(d, members::method_ref(s, d.end));
}

/// `attr_reader` matches nothing empty.
pub proof fn lemma_attr_reader_progress(s: Seq<u8>, p: int)
    requires
        0 <= p <= s.len(),
    ensures
        members::attr_reader(s, p).ok ==> p < members::attr_reader(s, p).end <= s.len(),
{
    reveal(members::attr_reader);
    crate::nesting::members::lemma_attr_reader_nested(s, p);
    lemma_keyword_nested(s, p, "attr_reader".spec_bytes());
    lemma_word_attr_reader();
    lemma_keyword_progress(s, p, "attr_reader".spec_bytes());
    let a = keyword(s, p, "attr_reader".spec_bytes());
}

/// `attr_writer` matches nothing empty.
pub proof fn lemma_attr_writer_progress(s: Seq<u8>, p: int)
    requires
        0 <= p <= s.len(),
    ensures
        members::attr_writer(s, p).ok ==> p < members::attr_writer(s, p).end <= s.len(),
{
    reveal(members::attr_writer);
    crate::nesting::members::lemma_attr_writer_nested(s, p);
    lemma_keyword_nested(s, p, "attr_writer".spec_bytes());
    lemma_word_attr_writer();
    lemma_keyword_progress(s, p, "attr_writer".spec_bytes());
    let a = keyword(s, p, "attr_writer".spec_bytes());
}

/// `attr_accessor` matches nothing empty.
pub proof fn lemma_attr_accessor_progress(s: Seq<u8>, p: int)
    requires
        0 <= p <= s.len(),
    ensures
        members::attr_accessor(s, p).ok ==> p < members::attr_accessor(s, p).end <= s.len(),
{
    reveal(members::attr_accessor);
    crate::nesting::members::lemma_attr_accessor_nested(s, p);
    lemma_keyword_nested(s, p, "attr_accessor".spec_bytes());
    lemma_word_attr_accessor();
    lemma_keyword_progress(s, p, "attr_accessor".spec_bytes());
    let a = keyword(s, p, "attr_accessor".spec_bytes());
}

/// `attribute_kind` matches nothing empty.
pub proof fn lemma_attribute_kind_progress(s: Seq<u8>, p: int)
    requires
        0 <= p <= s.len(),
    ensures
        members::attribute_kind(s, p).ok ==> p < members::attribute_kind(s, p).end <= s.len(),
{
    reveal(members::attribute_kind);
    crate::nesting::members::lemma_attribute_kind_nested(s, p);
    crate::progress::members::lemma_attr_reader_progress(s, p);
    crate::progress::members::lemma_attr_writer_progress(s, p);
    crate::progress::members::lemma_attr_accessor_progress(s, p);
}

/// `attribute_name` matches nothing empty.
pub proof fn lemma_attribute_name_progress(s: Seq<u8>, p: int)
    requires
        0 <= p <= s.len(),
    ensures
        members::attribute_name(s, p).ok ==> p < members::attribute_name(s, p).end <= s.len(),
{
    reveal(members::attribute_name);
    crate::nesting::members::lemma_attribute_name_nested(s, p);
    crate::nesting::names::lemma_lower_ident_nested(s, p);
    crate::progress::names::lemma_lower_ident_progress(s, p);
    let a = names::lower_ident(s, p);
}

/// `ivar_name` matches nothing empty.
pub proof fn lemma_ivar_name_progress(s: Seq<u8>, p: int)
    requires
        0 <= p <= s.len(),
    ensures
        members::ivar_name(s, p).ok ==> p < members::ivar_name(s, p).end <= s.len(),
{
    reveal(members::ivar_name);
    crate::nesting::members::lemma_ivar_name_nested(s, p);
    lemma_byte_nested(s, p, AT);
    let a = byte(s, p, AT);
    if a.ok {
        lemma_one_nested(s, a.end, Class::IdentStart);
    }
    crate::nesting::forest::lemma_join_nested(s, p, a, one(s, a.end, Class::IdentStart));
    let b = join(a, one(s, a.end, Class::IdentStart));
    if b.ok {
        lemma_run_nested(s, b.end, Class::Word);
    }
    crate::nesting::forest::lemma_join_nested(s, p, b, run(s, b.end, Class::Word));
    let c = join(b, run(s, b.end, Class::Word));
}

/// `ivar_clause` matches nothing empty.
pub proof fn lemma_ivar_clause_progress(s: Seq<u8>, p: int)
    requires
        0 <= p <= s.len(),
    ensures
        members::ivar_clause(s, p).ok ==> p < members::ivar_clause(s, p).end <= s.len(),
{
    reveal(members::ivar_clause);
    crate::nesting::members::lemma_ivar_clause_nested(s, p);
    lemma_byte_nested(s, p, LEFT_PAREN);
    let a = byte(s, p, LEFT_PAREN);
    if a.ok {
        lemma_trivia_nested(s, a.end);
    }
    crate::nesting::forest::lemma_join_nested(s, p, a, trivia(s, a.end));
    let b = join(a, trivia(s, a.end));
    if b.ok {
        crate::nesting::members::lemma_spaced_ivar_name_nested(s, b.end);
        lemma_opt_nested(s, b.end, members::spaced_ivar_name(s, b.end));
    }
    crate::nesting::forest::lemma_join_nested(
        s,
        p,
        b,
        opt(b.end, members::spaced_ivar_name(s, b.end)),
    );
    let c = join(b, opt(b.end, members::spaced_ivar_name(s, b.end)));
    if c.ok {
        lemma_byte_nested(s, c.end, RIGHT_PAREN);
    }
    crate::nesting::forest::lemma_join_nested(s, p, c, byte(s, c.end, RIGHT_PAREN));
    let d = join(c, byte(s, c.end, RIGHT_PAREN));
}

/// `member_attribute` matches nothing empty.
pub proof fn lemma_member_attribute_progress(s: Seq<u8>, p: int)
    requires
        0 <= p <= s.len(),
    ensures
        members::member_attribute(s, p).ok ==> p < members::member_attribute(s, p).end <= s.len(),
{
    reveal(members::member_attribute);
    crate::nesting::members::lemma_member_attribute_nested(s, p);
    crate::nesting::members::lemma_attribute_kind_nested(s, p);
    crate::progress::members::lemma_attribute_kind_progress(s, p);
    let a = members::attribute_kind(s, p);
    if a.ok {
        lemma_trivia_nested(s, a.end);
    }
    crate::nesting::forest::lemma_join_nested(s, p, a, trivia(s, a.end));
    let b = join(a, trivia(s, a.end));
    if b.ok {
        crate::nesting::members::lemma_attribute_name_nested(s, b.end);
    }
    crate::nesting::forest::lemma_join_nested(s, p, b, members::attribute_name(s, b.end));
    let c = join(b, members::attribute_name(s, b.end));
    if c.ok {
        crate::nesting::members::lemma_spaced_ivar_clause_nested(s, c.end);
        lemma_opt_nested(s, c.end, members::spaced_ivar_clause(s, c.end));
    }
    crate::nesting::forest::lemma_join_nested(
        s,
        p,
        c,
        opt(c.end, members::spaced_ivar_clause(s, c.end)),
    );
    let d = join(c, opt(c.end, members::spaced_ivar_clause(s, c.end)));
    if d.ok {
        lemma_trivia_nested(s, d.end);
    }
    crate::nesting::forest::lemma_join_nested(s, p, d, trivia(s, d.end));
    let e = join(d, trivia(s, d.end));
    if e.ok {
        lemma_byte_nested(s, e.end, COLON);
    }
    crate::nesting::forest::lemma_join_nested(s, p, e, byte(s, e.end, COLON));
    let f = join(e, byte(s, e.end, COLON));
    if f.ok {
        lemma_trivia_nested(s, f.end);
    }
    crate::nesting::forest::lemma_join_nested(s, p, f, trivia(s, f.end));
    let g = join(f, trivia(s, f.end));
    if g.ok {
        crate::nesting::types::lemma_type_expr_nested(s, g.end);
    }
    crate::nesting::forest::lemma_join_nested(s, p, g, types::type_expr(s, g.end));
    let h = join(g, types::type_expr(s, g.end));
}

/// `member_include` matches nothing empty.
pub proof fn lemma_member_include_progress(s: Seq<u8>, p: int)
    requires
        0 <= p <= s.len(),
    ensures
        members::member_include(s, p).ok ==> p < members::member_include(s, p).end <= s.len(),
{
    reveal(members::member_include);
    crate::nesting::members::lemma_member_include_nested(s, p);
    lemma_keyword_nested(s, p, "include".spec_bytes());
    lemma_word_include();
    lemma_keyword_progress(s, p, "include".spec_bytes());
    let a = keyword(s, p, "include".spec_bytes());
    if a.ok {
        lemma_trivia_nested(s, a.end);
    }
    crate::nesting::forest::lemma_join_nested(s, p, a, trivia(s, a.end));
    let b = join(a, trivia(s, a.end));
    if b.ok {
        crate::nesting::members::lemma_mixin_target_nested(s, b.end);
    }
    crate::nesting::forest::lemma_join_nested(s, p, b, members::mixin_target(s, b.end));
    let c = join(b, members::mixin_target(s, b.end));
}

/// `member_extend` matches nothing empty.
pub proof fn lemma_member_extend_progress(s: Seq<u8>, p: int)
    requires
        0 <= p <= s.len(),
    ensures
        members::member_extend(s, p).ok ==> p < members::member_extend(s, p).end <= s.len(),
{
    reveal(members::member_extend);
    crate::nesting::members::lemma_member_extend_nested(s, p);
    lemma_keyword_nested(s, p, "extend".spec_bytes());
    lemma_word_extend();
    lemma_keyword_progress(s, p, "extend".spec_bytes());
    let a = keyword(s, p, "extend".spec_bytes());
    if a.ok {
        lemma_trivia_nested(s, a.end);
    }
    crate::nesting::forest::lemma_join_nested(s, p, a, trivia(s, a.end));
    let b = join(a, trivia(s, a.end));
    if b.ok {
        crate::nesting::members::lemma_mixin_target_nested(s, b.end);
    }
    crate::nesting::forest::lemma_join_nested(s, p, b, members::mixin_target(s, b.end));
    let c = join(b, members::mixin_target(s, b.end));
}

} // verus!
