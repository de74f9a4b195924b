use vstd::prelude::*;
use vstd::string::StringSliceAdditionalSpecFns;
use crate::firmness::firm::{firm, lemma_join_firm, lemma_node_firm};
use crate::grammar::lexical::{
    byte, keyword, literal, one, run, trivia, Class, AT, COLON, DOT, LEFT_PAREN, QUESTION,
    RIGHT_PAREN,
};
use crate::grammar::step::{either, join, opt};
use crate::grammar::{members, names, types};
use crate::nesting::forest::{
    lemma_byte_nested, lemma_either_nested, lemma_join_nested, lemma_keyword_nested,
    lemma_literal_nested, lemma_one_nested, lemma_opt_nested, lemma_run_nested,
    lemma_trivia_nested,
};
use crate::rule::Rule;

verus! {

/// Every node that `receiver_self` leaves spans something.
pub proof fn lemma_receiver_self_firm(s: Seq<u8>, p: int)
    requires
        0 <= p <= s.len(),
    ensures
        firm(members::receiver_self(s, p)),
{
    reveal(members::receiver_self);
    lemma_keyword_nested(s, p, "self".spec_bytes());
    let a = keyword(s, p, "self".spec_bytes());
    if a.ok {
        lemma_trivia_nested(s, a.end);
    }
    crate::nesting::forest::lemma_join_nested(s, p, a, trivia(s, a.end));
    lemma_join_firm(a, trivia(s, a.end));
    let b = join(a, trivia(s, a.end));
    if b.ok {
        lemma_byte_nested(s, b.end, DOT);
    }
    crate::nesting::forest::lemma_join_nested(s, p, b, byte(s, b.end, DOT));
    lemma_join_firm(b, byte(s, b.end, DOT));
    let c = join(b, byte(s, b.end, DOT));
    crate::progress::members::lemma_receiver_self_progress(s, p);
    lemma_node_firm(Rule::ReceiverSelf, p, c);
}

/// Every node that `receiver_self_or_instance` leaves spans something.
pub proof fn lemma_receiver_self_or_instance_firm(s: Seq<u8>, p: int)
    requires
        0 <= p <= s.len(),
    ensures
        firm(members::receiver_self_or_instance(s, p)),
{
    reveal(members::receiver_self_or_instance);
    lemma_keyword_nested(s, p, "self".spec_bytes());
    let a = keyword(s, p, "self".spec_bytes());
    if a.ok {
        lemma_trivia_nested(s, a.end);
    }
    crate::nesting::forest::lemma_join_nested(s, p, a, trivia(s, a.end));
    lemma_join_firm(a, trivia(s, a.end));
    let b = join(a, trivia(s, a.end));
    if b.ok {
        lemma_byte_nested(s, b.end, QUESTION);
    }
    crate::nesting::forest::lemma_join_nested(s, p, b, byte(s, b.end, QUESTION));
    lemma_join_firm(b, byte(s, b.end, QUESTION));
    let c = join(b, byte(s, b.end, QUESTION));
    if c.ok {
        lemma_trivia_nested(s, c.end);
    }
    crate::nesting::forest::lemma_join_nested(s, p, c, trivia(s, c.end));
    lemma_join_firm(c, trivia(s, c.end));
    let d = join(c, trivia(s, c.end));
    if d.ok {
        lemma_byte_nested(s, d.end, DOT);
    }
    crate::nesting::forest::lemma_join_nested(s, p, d, byte(s, d.end, DOT));
    lemma_join_firm(d, byte(s, d.end, DOT));
    let e = join(d, byte(s, d.end, DOT));
    crate::progress::members::lemma_receiver_self_or_instance_progress(s, p);
    lemma_node_firm(Rule::ReceiverSelfOrInstance, p, e);
}

/// Every node that `spaced_receiver` leaves spans something.
pub proof fn lemma_spaced_receiver_firm(s: Seq<u8>, p: int)
    requires
        0 <= p <= s.len(),
    ensures
        firm(members::spaced_receiver(s, p)),
{
    reveal(members::spaced_receiver);
    crate::nesting::members::lemma_receiver_self_or_instance_nested(s, p);
    crate::nesting::members::lemma_receiver_self_nested(s, p);
    lemma_either_nested(
        s,
        p,
        members::receiver_self_or_instance(s, p),
        members::receiver_self(s, p),
    );
    crate::firmness::members::lemma_receiver_self_or_instance_firm(s, p);
    crate::firmness::members::lemma_receiver_self_firm(s, p);
    let a = either(members::receiver_self_or_instance(s, p), members::receiver_self(s, p));
    if a.ok {
        lemma_trivia_nested(s, a.end);
    }
    crate::nesting::forest::lemma_join_nested(s, p, a, trivia(s, a.end));
    lemma_join_firm(a, trivia(s, a.end));
    let b = join(a, trivia(s, a.end));
}

/// Every node that `spaced_receiver_self` leaves spans something.
pub proof fn lemma_spaced_receiver_self_firm(s: Seq<u8>, p: int)
    requires
        0 <= p <= s.len(),
    ensures
        firm(members::spaced_receiver_self(s, p)),
{
    reveal(members::spaced_receiver_self);
    crate::nesting::members::lemma_receiver_self_nested(s, p);
    crate::firmness::members::lemma_receiver_self_firm(s, p);
    let a = members::receiver_self(s, p);
    if a.ok {
        lemma_trivia_nested(s, a.end);
    }
    crate::nesting::forest::lemma_join_nested(s, p, a, trivia(s, a.end));
    lemma_join_firm(a, trivia(s, a.end));
    let b = join(a, trivia(s, a.end));
}

/// Every node that `method_name` leaves spans something.
pub proof fn lemma_method_name_firm(s: Seq<u8>, p: int)
    requires
        0 <= p <= s.len(),
    ensures
        firm(members::method_name(s, p)),
{
    reveal(members::method_name);
    crate::nesting::names::lemma_lower_ident_nested(s, p);
    crate::firmness::names::lemma_lower_ident_firm(s, p);
    let a = names::lower_ident(s, p);
    if a.ok {
        lemma_one_nested(s, a.end, Class::Suffix);
        lemma_opt_nested(s, a.end, one(s, a.end, Class::Suffix));
    }
    crate::nesting::forest::lemma_join_nested(s, p, a, opt(a.end, one(s, a.end, Class::Suffix)));
    lemma_join_firm(a, opt(a.end, one(s, a.end, Class::Suffix)));
    let b = join(a, opt(a.end, one(s, a.end, Class::Suffix)));
    crate::progress::members::lemma_method_name_progress(s, p);
    lemma_node_firm(Rule::MethodName, p, b);
}

/// Every node that `spaced_type_list` leaves spans something.
pub proof fn lemma_spaced_type_list_firm(s: Seq<u8>, p: int)
    requires
        0 <= p <= s.len(),
    ensures
        firm(members::spaced_type_list(s, p)),
{
    reveal(members::spaced_type_list);
    crate::nesting::types::lemma_type_list_nested(s, p);
    crate::firmness::types::lemma_type_list_firm(s, p);
    let a = types::type_list(s, p);
    if a.ok {
        lemma_trivia_nested(s, a.end);
    }
    crate::nesting::forest::lemma_join_nested(s, p, a, trivia(s, a.end));
    lemma_join_firm(a, trivia(s, a.end));
    let b = join(a, trivia(s, a.end));
}

/// Every node that `params` leaves spans something.
pub proof fn lemma_params_firm(s: Seq<u8>, p: int)
    requires
        0 <= p <= s.len(),
    ensures
        firm(members::params(s, p)),
{
    reveal(members::params);
    lemma_byte_nested(s, p, LEFT_PAREN);
    let a = byte(s, p, LEFT_PAREN);
    if a.ok {
        lemma_trivia_nested(s, a.end);
    }
    crate::nesting::forest::lemma_join_nested(s, p, a, trivia(s, a.end));
    lemma_join_firm(a, trivia(s, a.end));
    let b = join(a, trivia(s, a.end));
    if b.ok {
        crate::nesting::members::lemma_spaced_type_list_nested(s, b.end);
        lemma_opt_nested(s, b.end, members::spaced_type_list(s, b.end));
        crate::firmness::members::lemma_spaced_type_list_firm(s, b.end);
    }
    crate::nesting::forest::lemma_join_nested(
        s,
        p,
        b,
        opt(b.end, members::spaced_type_list(s, b.end)),
    );
    lemma_join_firm(b, opt(b.end, members::spaced_type_list(s, b.end)));
    let c = join(b, opt(b.end, members::spaced_type_list(s, b.end)));
    if c.ok {
        lemma_byte_nested(s, c.end, RIGHT_PAREN);
    }
    crate::nesting::forest::lemma_join_nested(s, p, c, byte(s, c.end, RIGHT_PAREN));
    lemma_join_firm(c, byte(s, c.end, RIGHT_PAREN));
    let d = join(c, byte(s, c.end, RIGHT_PAREN));
    crate::progress::members::lemma_params_progress(s, p);
    lemma_node_firm(Rule::Params, p, d);
}

/// Every node that `method_type` leaves spans something.
pub proof fn lemma_method_type_firm(s: Seq<u8>, p: int)
    requires
        0 <= p <= s.len(),
    ensures
        firm(members::method_type(s, p)),
{
    reveal(members::method_type);
    crate::nesting::members::lemma_params_nested(s, p);
    crate::firmness::members::lemma_params_firm(s, p);
    let a = members::params(s, p);
    if a.ok {
        lemma_trivia_nested(s, a.end);
    }
    crate::nesting::forest::lemma_join_nested(s, p, a, trivia(s, a.end));
    lemma_join_firm(a, trivia(s, a.end));
    let b = join(a, trivia(s, a.end));
    if b.ok {
        lemma_literal_nested(s, b.end, "->".spec_bytes());
    }
    crate::nesting::forest::lemma_join_nested(s, p, b, literal(s, b.end, "->".spec_bytes()));
    lemma_join_firm(b, literal(s, b.end, "->".spec_bytes()));
    let c = join(b, literal(s, b.end, "->".spec_bytes()));
    if c.ok {
        lemma_trivia_nested(s, c.end);
    }
    crate::nesting::forest::lemma_join_nested(s, p, c, trivia(s, c.end));
    lemma_join_firm(c, trivia(s, c.end));
    let d = join(c, trivia(s, c.end));
    if d.ok {
        crate::nesting::types::lemma_type_expr_nested(s, d.end);
        crate::firmness::types::lemma_type_expr_firm(s, d.end);
    }
    crate::nesting::forest::lemma_join_nested(s, p, d, types::type_expr(s, d.end));
    lemma_join_firm(d, types::type_expr(s, d.end));
    let e = join(d, types::type_expr(s, d.end));
    crate::progress::members::lemma_method_type_progress(s, p);
    lemma_node_firm(Rule::MethodType, p, e);
}

/// Every node that `member_method` leaves spans something.
pub proof fn lemma_member_method_firm(s: Seq<u8>, p: int)
    requires
        0 <= p <= s.len(),
    ensures
        firm(members::member_method(s, p)),
{
    reveal(members::member_method);
    lemma_keyword_nested(s, p, "def".spec_bytes());
    let a = keyword(s, p, "def".spec_bytes());
    if a.ok {
        lemma_trivia_nested(s, a.end);
    }
    crate::nesting::forest::lemma_join_nested(s, p, a, trivia(s, a.end));
    lemma_join_firm(a, trivia(s, a.end));
    let b = join(a, trivia(s, a.end));
    if b.ok {
        crate::nesting::members::lemma_spaced_receiver_nested(s, b.end);
        lemma_opt_nested(s, b.end, members::spaced_receiver(s, b.end));
        crate::firmness::members::lemma_spaced_receiver_firm(s, b.end);
    }
    crate::nesting::forest::lemma_join_nested(
        s,
        p,
        b,
        opt(b.end, members::spaced_receiver(s, b.end)),
    );
    lemma_join_firm(b, opt(b.end, members::spaced_receiver(s, b.end)));
    let c = join(b, opt(b.end, members::spaced_receiver(s, b.end)));
    if c.ok {
        crate::nesting::members::lemma_method_name_nested(s, c.end);
        crate::firmness::members::lemma_method_name_firm(s, c.end);
    }
    crate::nesting::forest::lemma_join_nested(s, p, c, members::method_name(s, c.end));
    lemma_join_firm(c, members::method_name(s, c.end));
    let d = join(c, members::method_name(s, c.end));
    if d.ok {
        lemma_trivia_nested(s, d.end);
    }
    crate::nesting::forest::lemma_join_nested(s, p, d, trivia(s, d.end));
    lemma_join_firm(d, trivia(s, d.end));
    let e = join(d, trivia(s, d.end));
    if e.ok {
        lemma_byte_nested(s, e.end, COLON);
    }
    crate::nesting::forest::lemma_join_nested(s, p, e, byte(s, e.end, COLON));
    lemma_join_firm(e, byte(s, e.end, COLON));
    let f = join(e, byte(s, e.end, COLON));
    if f.ok {
        lemma_trivia_nested(s, f.end);
    }
    crate::nesting::forest::lemma_join_nested(s, p, f, trivia(s, f.end));
    lemma_join_firm(f, trivia(s, f.end));
    let g = join(f, trivia(s, f.end));
    if g.ok {
        crate::nesting::members::lemma_method_type_nested(s, g.end);
        crate::firmness::members::lemma_method_type_firm(s, g.end);
    }
    crate::nesting::forest::lemma_join_nested(s, p, g, members::method_type(s, g.end));
    lemma_join_firm(g, members::method_type(s, g.end));
    let h = join(g, members::method_type(s, g.end));
    crate::progress::members::lemma_member_method_progress(s, p);
    lemma_node_firm(Rule::MemberMethod, p, h);
}

/// Every node that `method_ref` leaves spans something.
pub proof fn lemma_method_ref_firm(s: Seq<u8>, p: int)
    requires
        0 <= p <= s.len(),
    ensures
        firm(members::method_ref(s, p)),
{
    reveal(members::method_ref);
    crate::nesting::members::lemma_spaced_receiver_self_nested(s, p);
    lemma_opt_nested(s, p, members::spaced_receiver_self(s, p));
    crate::firmness::members::lemma_spaced_receiver_self_firm(s, p);
    let a = opt(p, members::spaced_receiver_self(s, p));
    if a.ok {
        crate::nesting::members::lemma_method_name_nested(s, a.end);
        crate::firmness::members::lemma_method_name_firm(s, a.end);
    }
    crate::nesting::forest::lemma_join_nested(s, p, a, members::method_name(s, a.end));
    lemma_join_firm(a, members::method_name(s, a.end));
    let b = join(a, members::method_name(s, a.end));
    crate::progress::members::lemma_method_ref_progress(s, p);
    lemma_node_firm(Rule::MethodRef, p, b);
}

/// Every node that `member_alias` leaves spans something.
pub proof fn lemma_member_alias_firm(s: Seq<u8>, p: int)
    requires
        0 <= p <= s.len(),
    ensures
        firm(members::member_alias(s, p)),
{
    reveal(members::member_alias);
    lemma_keyword_nested(s, p, "alias".spec_bytes());
    let a = keyword(s, p, "alias".spec_bytes());
    if a.ok {
        lemma_trivia_nested(s, a.end);
    }
    crate::nesting::forest::lemma_join_nested(s, p, a, trivia(s, a.end));
    lemma_join_firm(a, trivia(s, a.end));
    let b = join(a, trivia(s, a.end));
    if b.ok {
        crate::nesting::members::lemma_method_ref_nested(s, b.end);
        crate::firmness::members::lemma_method_ref_firm(s, b.end);
    }
    crate::nesting::forest::lemma_join_nested(s, p, b, members::method_ref(s, b.end));
    lemma_join_firm(b, members::method_ref(s, b.end));
    let c = join(b, members::method_ref(s, b.end));
    if c.ok {
        lemma_trivia_nested(s, c.end);
    }
    crate::nesting::forest::lemma_join_nested(s, p, c, trivia(s, c.end));
    lemma_join_firm(c, trivia(s, c.end));
    let d = join(c, trivia(s, c.end));
    if d.ok {
        crate::nesting::members::lemma_method_ref_nested(s, d.end);
        crate::firmness::members::lemma_method_ref_firm(s, d.end);
    }
    crate::nesting::forest::lemma_join_nested(s, p, d, members::method_ref(s, d.end));
    lemma_join_firm(d, members::method_ref(s, d.end));
    let e = join(d, members::method_ref(s, d.end));
    crate::progress::members::lemma_member_alias_progress(s, p);
    lemma_node_firm(Rule::MemberAlias, p, e);
}

/// Every node that `attr_reader` leaves spans something.
pub proof fn lemma_attr_reader_firm(s: Seq<u8>, p: int)
    requires
        0 <= p <= s.len(),
    ensures
        firm(members::attr_reader(s, p)),
{
    reveal(members::attr_reader);
    lemma_keyword_nested(s, p, "attr_reader".spec_bytes());
    let a = keyword(s, p, "attr_reader".spec_bytes());
    crate::progress::members::lemma_attr_reader_progress(s, p);
    lemma_node_firm(Rule::AttrReader, p, a);
}

/// Every node that `attr_writer` leaves spans something.
pub proof fn lemma_attr_writer_firm(s: Seq<u8>, p: int)
    requires
        0 <= p <= s.len(),
    ensures
        firm(members::attr_writer(s, p)),
{
    reveal(members::attr_writer);
    lemma_keyword_nested(s, p, "attr_writer".spec_bytes());
    let a = keyword(s, p, "attr_writer".spec_bytes());
    crate::progress::members::lemma_attr_writer_progress(s, p);
    lemma_node_firm(Rule::AttrWriter, p, a);
}

/// Every node that `attr_accessor` leaves spans something.
pub proof fn lemma_attr_accessor_firm(s: Seq<u8>, p: int)
    requires
        0 <= p <= s.len(),
    ensures
        firm(members::attr_accessor(s, p)),
{
    reveal(members::attr_accessor);
    lemma_keyword_nested(s, p, "attr_accessor".spec_bytes());
    let a = keyword(s, p, "attr_accessor".spec_bytes());
    crate::progress::members::lemma_attr_accessor_progress(s, p);
    lemma_node_firm(Rule::AttrAccessor, p, a);
}

/// Every node that `attribute_kind` leaves spans something.
pub proof fn lemma_attribute_kind_firm(s: Seq<u8>, p: int)
    requires
        0 <= p <= s.len(),
    ensures
        firm(members::attribute_kind(s, p)),
{
    reveal(members::attribute_kind);
    crate::nesting::members::lemma_attr_reader_nested(s, p);
    crate::nesting::members::lemma_attr_writer_nested(s, p);
    crate::nesting::members::lemma_attr_accessor_nested(s, p);
    lemma_either_nested(s, p, members::attr_writer(s, p), members::attr_accessor(s, p));
    lemma_either_nested(
        s,
        p,
        members::attr_reader(s, p),
        either(members::attr_writer(s, p), members::attr_accessor(s, p)),
    );
    crate::firmness::members::lemma_attr_reader_firm(s, p);
    crate::firmness::members::lemma_attr_writer_firm(s, p);
    crate::firmness::members::lemma_attr_accessor_firm(s, p);
}

/// Every node that `attribute_name` leaves spans something.
pub proof fn lemma_attribute_name_firm(s: Seq<u8>, p: int)
    requires
        0 <= p <= s.len(),
    ensures
        firm(members::attribute_name(s, p)),
{
    reveal(members::attribute_name);
    crate::nesting::names::lemma_lower_ident_nested(s, p);
    crate::firmness::names::lemma_lower_ident_firm(s, p);
    let a = names::lower_ident(s, p);
    crate::progress::members::lemma_attribute_name_progress(s, p);
    lemma_node_firm(Rule::AttributeName, p, a);
}

/// Every node that `ivar_name` leaves spans something.
pub proof fn lemma_ivar_name_firm(s: Seq<u8>, p: int)
    requires
        0 <= p <= s.len(),
    ensures
        firm(members::ivar_name(s, p)),
{
    reveal(members::ivar_name);
    lemma_byte_nested(s, p, AT);
    let a = byte(s, p, AT);
    if a.ok {
        lemma_one_nested(s, a.end, Class::IdentStart);
    }
    crate::nesting::forest::lemma_join_nested(s, p, a, one(s, a.end, Class::IdentStart));
    lemma_join_firm(a, one(s, a.end, Class::IdentStart));
    let b = join(a, one(s, a.end, Class::IdentStart));
    if b.ok {
        lemma_run_nested(s, b.end, Class::Word);
    }
    crate::nesting::forest::lemma_join_nested(s, p, b, run(s, b.end, Class::Word));
    lemma_join_firm(b, run(s, b.end, Class::Word));
    let c = join(b, run(s, b.end, Class::Word));
    crate::progress::members::lemma_ivar_name_progress(s, p);
    lemma_node_firm(Rule::IvarName, p, c);
}

/// Every node that `spaced_ivar_name` leaves spans something.
pub proof fn lemma_spaced_ivar_name_firm(s: Seq<u8>, p: int)
    requires
        0 <= p <= s.len(),
    ensures
        firm(members::spaced_ivar_name(s, p)),
{
    reveal(members::spaced_ivar_name);
    crate::nesting::members::lemma_ivar_name_nested(s, p);
    crate::firmness::members::lemma_ivar_name_firm(s, p);
    let a = members::ivar_name(s, p);
    if a.ok {
        lemma_trivia_nested(s, a.end);
    }
    crate::nesting::forest::lemma_join_nested(s, p, a, trivia(s, a.end));
    lemma_join_firm(a, trivia(s, a.end));
    let b = join(a, trivia(s, a.end));
}

/// Every node that `ivar_clause` leaves spans something.
pub proof fn lemma_ivar_clause_firm(s: Seq<u8>, p: int)
    requires
        0 <= p <= s.len(),
    ensures
        firm(members::ivar_clause(s, p)),
{
    reveal(members::ivar_clause);
    lemma_byte_nested(s, p, LEFT_PAREN);
    let a = byte(s, p, LEFT_PAREN);
    if a.ok {
        lemma_trivia_nested(s, a.end);
    }
    crate::nesting::forest::lemma_join_nested(s, p, a, trivia(s, a.end));
    lemma_join_firm(a, trivia(s, a.end));
    let b = join(a, trivia(s, a.end));
    if b.ok {
        crate::nesting::members::lemma_spaced_ivar_name_nested(s, b.end);
        lemma_opt_nested(s, b.end, members::spaced_ivar_name(s, b.end));
        crate::firmness::members::lemma_spaced_ivar_name_firm(s, b.end);
    }
    crate::nesting::forest::lemma_join_nested(
        s,
        p,
        b,
        opt(b.end, members::spaced_ivar_name(s, b.end)),
    );
    lemma_join_firm(b, opt(b.end, members::spaced_ivar_name(s, b.end)));
    let c = join(b, opt(b.end, members::spaced_ivar_name(s, b.end)));
    if c.ok {
        lemma_byte_nested(s, c.end, RIGHT_PAREN);
    }
    crate::nesting::forest::lemma_join_nested(s, p, c, byte(s, c.end, RIGHT_PAREN));
    lemma_join_firm(c, byte(s, c.end, RIGHT_PAREN));
    let d = join(c, byte(s, c.end, RIGHT_PAREN));
    crate::progress::members::lemma_ivar_clause_progress(s, p);
    lemma_node_firm(Rule::IvarClause, p, d);
}

/// Every node that `spaced_ivar_clause` leaves spans something.
pub proof fn lemma_spaced_ivar_clause_firm(s: Seq<u8>, p: int)
    requires
        0 <= p <= s.len(),
    ensures
        firm(members::spaced_ivar_clause(s, p)),
{
    reveal(members::spaced_ivar_clause);
    lemma_trivia_nested(s, p);
    let a = trivia(s, p);
    if a.ok {
        crate::nesting::members::lemma_ivar_clause_nested(s, a.end);
        crate::firmness::members::lemma_ivar_clause_firm(s, a.end);
    }
    crate::nesting::forest::lemma_join_nested(s, p, a, members::ivar_clause(s, a.end));
    lemma_join_firm(a, members::ivar_clause(s, a.end));
    let b = join(a, members::ivar_clause(s, a.end));
}

/// Every node that `member_attribute` leaves spans something.
pub proof fn lemma_member_attribute_firm(s: Seq<u8>, p: int)
    requires
        0 <= p <= s.len(),
    ensures
        firm(members::member_attribute(s, p)),
{
    reveal(members::member_attribute);
    crate::nesting::members::lemma_attribute_kind_nested(s, p);
    crate::firmness::members::lemma_attribute_kind_firm(s, p);
    let a = members::attribute_kind(s, p);
    if a.ok {
        lemma_trivia_nested(s, a.end);
    }
    crate::nesting::forest::lemma_join_nested(s, p, a, trivia(s, a.end));
    lemma_join_firm(a, trivia(s, a.end));
    let b = join(a, trivia(s, a.end));
    if b.ok {
        crate::nesting::members::lemma_attribute_name_nested(s, b.end);
        crate::firmness::members::lemma_attribute_name_firm(s, b.end);
    }
    crate::nesting::forest::lemma_join_nested(s, p, b, members::attribute_name(s, b.end));
    lemma_join_firm(b, members::attribute_name(s, b.end));
    let c = join(b, members::attribute_name(s, b.end));
    if c.ok {
        crate::nesting::members::lemma_spaced_ivar_clause_nested(s, c.end);
        lemma_opt_nested(s, c.end, members::spaced_ivar_clause(s, c.end));
        crate::firmness::members::lemma_spaced_ivar_clause_firm(s, c.end);
    }
    crate::nesting::forest::lemma_join_nested(
        s,
        p,
        c,
        opt(c.end, members::spaced_ivar_clause(s, c.end)),
    );
    lemma_join_firm(c, opt(c.end, members::spaced_ivar_clause(s, c.end)));
    let d = join(c, opt(c.end, members::spaced_ivar_clause(s, c.end)));
    if d.ok {
        lemma_trivia_nested(s, d.end);
    }
    crate::nesting::forest::lemma_join_nested(s, p, d, trivia(s, d.end));
    lemma_join_firm(d, trivia(s, d.end));
    let e = join(d, trivia(s, d.end));
    if e.ok {
        lemma_byte_nested(s, e.end, COLON);
    }
    crate::nesting::forest::lemma_join_nested(s, p, e, byte(s, e.end, COLON));
    lemma_join_firm(e, byte(s, e.end, COLON));
    let f = join(e, byte(s, e.end, COLON));
    if f.ok {
        lemma_trivia_nested(s, f.end);
    }
    crate::nesting::forest::lemma_join_nested(s, p, f, trivia(s, f.end));
    lemma_join_firm(f, trivia(s, f.end));
    let g = join(f, trivia(s, f.end));
    if g.ok {
        crate::nesting::types::lemma_type_expr_nested(s, g.end);
        crate::firmness::types::lemma_type_expr_firm(s, g.end);
    }
    crate::nesting::forest::lemma_join_nested(s, p, g, types::type_expr(s, g.end));
    lemma_join_firm(g, types::type_expr(s, g.end));
    let h = join(g, types::type_expr(s, g.end));
    crate::progress::members::lemma_member_attribute_progress(s, p);
    lemma_node_firm(Rule::MemberAttribute, p, h);
}

/// Every node that `mixin_target` leaves spans something.
pub proof fn lemma_mixin_target_firm(s: Seq<u8>, p: int)
    requires
        0 <= p <= s.len(),
    ensures
        firm(members::mixin_target(s, p)),
{
    reveal(members::mixin_target);
    crate::nesting::types::lemma_type_interface_name_nested(s, p);
    crate::nesting::types::lemma_type_class_instance_name_nested(s, p);
    lemma_either_nested(
        s,
        p,
        types::type_interface_name(s, p),
        types::type_class_instance_name(s, p),
    );
    crate::firmness::types::lemma_type_interface_name_firm(s, p);
    crate::firmness::types::lemma_type_class_instance_name_firm(s, p);
}

/// Every node that `member_include` leaves spans something.
pub proof fn lemma_member_include_firm(s: Seq<u8>, p: int)
    requires
        0 <= p <= s.len(),
    ensures
        firm(members::member_include(s, p)),
{
    reveal(members::member_include);
    lemma_keyword_nested(s, p, "include".spec_bytes());
    let a = keyword(s, p, "include".spec_bytes());
    if a.ok {
        lemma_trivia_nested(s, a.end);
    }
    crate::nesting::forest::lemma_join_nested(s, p, a, trivia(s, a.end));
    lemma_join_firm(a, trivia(s, a.end));
    let b = join(a, trivia(s, a.end));
    if b.ok {
        crate::nesting::members::lemma_mixin_target_nested(s, b.end);
        crate::firmness::members::lemma_mixin_target_firm(s, b.end);
    }
    crate::nesting::forest::lemma_join_nested(s, p, b, members::mixin_target(s, b.end));
    lemma_join_firm(b, members::mixin_target(s, b.end));
    let c = join(b, members::mixin_target(s, b.end));
    crate::progress::members::lemma_member_include_progress(s, p);
    lemma_node_firm(Rule::MemberInclude, p, c);
}

/// Every node that `member_extend` leaves spans something.
pub proof fn lemma_member_extend_firm(s: Seq<u8>, p: int)
    requires
        0 <= p <= s.len(),
    ensures
        firm(members::member_extend(s, p)),
{
    reveal(members::member_extend);
    lemma_keyword_nested(s, p, "extend".spec_bytes());
    let a = keyword(s, p, "extend".spec_bytes());
    if a.ok {
        lemma_trivia_nested(s, a.end);
    }
    crate::nesting::forest::lemma_join_nested(s, p, a, trivia(s, a.end));
    lemma_join_firm(a, trivia(s, a.end));
    let b = join(a, trivia(s, a.end));
    if b.ok {
        crate::nesting::members::lemma_mixin_target_nested(s, b.end);
        crate::firmness::members::lemma_mixin_target_firm(s, b.end);
    }
    crate::nesting::forest::lemma_join_nested(s, p, b, members::mixin_target(s, b.end));
    lemma_join_firm(b, members::mixin_target(s, b.end));
    let c = join(b, members::mixin_target(s, b.end));
    crate::progress::members::lemma_member_extend_progress(s, p);
    lemma_node_firm(Rule::MemberExtend, p, c);
}

/// Every node that `member` leaves spans something.
pub proof fn lemma_member_firm(s: Seq<u8>, p: int)
    requires
        0 <= p <= s.len(),
    ensures
        firm(members::member(s, p)),
{
    reveal(members::member);
    crate::nesting::members::lemma_member_method_nested(s, p);
    crate::nesting::members::lemma_member_alias_nested(s, p);
    crate::nesting::members::lemma_member_attribute_nested(s, p);
    crate::nesting::members::lemma_member_include_nested(s, p);
    crate::nesting::members::lemma_member_extend_nested(s, p);
    lemma_either_nested(s, p, members::member_include(s, p), members::member_extend(s, p));
    lemma_either_nested(
        s,
        p,
        members::member_attribute(s, p),
        either(members::member_include(s, p), members::member_extend(s, p)),
    );
    lemma_either_nested(
        s,
        p,
        members::member_alias(s, p),
        either(
            members::member_attribute(s, p),
            either(members::member_include(s, p), members::member_extend(s, p)),
        ),
    );
    lemma_either_nested(
        s,
        p,
        members::member_method(s, p),
        either(
            members::member_alias(s, p),
            either(
                members::member_attribute(s, p),
                either(members::member_include(s, p), members::member_extend(s, p)),
            ),
        ),
    );
    crate::firmness::members::lemma_member_method_firm(s, p);
    crate::firmness::members::lemma_member_alias_firm(s, p);
    crate::firmness::members::lemma_member_attribute_firm(s, p);
    crate::firmness::members::lemma_member_include_firm(s, p);
    crate::firmness::members::lemma_member_extend_firm(s, p);
}

} // verus!
