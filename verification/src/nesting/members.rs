use vstd::prelude::*;
use vstd::string::StringSliceAdditionalSpecFns;
use crate::grammar::lexical::{
    byte, keyword, literal, one, run, trivia, Class, AT, COLON, DOT, LEFT_PAREN, QUESTION,
    RIGHT_PAREN,
};
use crate::grammar::step::{either, join, opt};
use crate::grammar::{members, names, types};
use crate::nesting::forest::{
    lemma_byte_nested, lemma_either_nested, lemma_join_nested, lemma_keyword_nested,
    lemma_literal_nested, lemma_node_nested, lemma_one_nested, lemma_opt_nested,
    lemma_quiet_nested, lemma_run_nested, lemma_trivia_nested, nested,
};
use crate::rule::Rule;

verus! {

/// What `receiver_self` makes of any input is well behaved.
pub proof fn lemma_receiver_self_nested(s: Seq<u8>, p: int)
    requires
        0 <= p <= s.len(),
    ensures
        nested(s, p, members::receiver_self(s, p)),
{
    reveal(members::receiver_self);
    lemma_keyword_nested(s, p, "self".spec_bytes());
    let a = keyword(s, p, "self".spec_bytes());
    if a.ok {
        lemma_trivia_nested(s, a.end);
    }
    lemma_join_nested(s, p, a, trivia(s, a.end));
    let b = join(a, trivia(s, a.end));
    if b.ok {
        lemma_byte_nested(s, b.end, DOT);
    }
    lemma_join_nested(s, p, b, byte(s, b.end, DOT));
    let c = join(b, byte(s, b.end, DOT));
    lemma_node_nested(s, Rule::ReceiverSelf, p, c);
}

/// What `receiver_self_or_instance` makes of any input is well behaved.
pub proof fn lemma_receiver_self_or_instance_nested(s: Seq<u8>, p: int)
    requires
        0 <= p <= s.len(),
    ensures
        nested(s, p, members::receiver_self_or_instance(s, p)),
{
    reveal(members::receiver_self_or_instance);
    lemma_keyword_nested(s, p, "self".spec_bytes());
    let a = keyword(s, p, "self".spec_bytes());
    if a.ok {
        lemma_trivia_nested(s, a.end);
    }
    lemma_join_nested(s, p, a, trivia(s, a.end));
    let b = join(a, trivia(s, a.end));
    if b.ok {
        lemma_byte_nested(s, b.end, QUESTION);
    }
    lemma_join_nested(s, p, b, byte(s, b.end, QUESTION));
    let c = join(b, byte(s, b.end, QUESTION));
    if c.ok {
        lemma_trivia_nested(s, c.end);
    }
    lemma_join_nested(s, p, c, trivia(s, c.end));
    let d = join(c, trivia(s, c.end));
    if d.ok {
        lemma_byte_nested(s, d.end, DOT);
    }
    lemma_join_nested(s, p, d, byte(s, d.end, DOT));
    let e = join(d, byte(s, d.end, DOT));
    lemma_node_nested(s, Rule::ReceiverSelfOrInstance, p, e);
}

/// What `spaced_receiver` makes of any input is well behaved.
pub proof fn lemma_spaced_receiver_nested(s: Seq<u8>, p: int)
    requires
        0 <= p <= s.len(),
    ensures
        nested(s, p, members::spaced_receiver(s, p)),
{
    reveal(members::spaced_receiver);
    crate::nesting::members::lemma_receiver_self_or_instance_nested(s, p);
    crate::nesting::members::lemma_receiver_self_nested(s, p);
    lemma_either_nested(
        s,
        p,
        members::receiver_self_or_instance(s, p),
        members::receiver_self(s, p),
    );
    let a = either(members::receiver_self_or_instance(s, p), members::receiver_self(s, p));
    if a.ok {
        lemma_trivia_nested(s, a.end);
    }
    lemma_join_nested(s, p, a, trivia(s, a.end));
    let b = join(a, trivia(s, a.end));
    lemma_quiet_nested(s, p, b);
}

/// What `spaced_receiver_self` makes of any input is well behaved.
pub proof fn lemma_spaced_receiver_self_nested(s: Seq<u8>, p: int)
    requires
        0 <= p <= s.len(),
    ensures
        nested(s, p, members::spaced_receiver_self(s, p)),
{
    reveal(members::spaced_receiver_self);
    crate::nesting::members::lemma_receiver_self_nested(s, p);
    let a = members::receiver_self(s, p);
    if a.ok {
        lemma_trivia_nested(s, a.end);
    }
    lemma_join_nested(s, p, a, trivia(s, a.end));
    let b = join(a, trivia(s, a.end));
    lemma_quiet_nested(s, p, b);
}

/// What `method_name` makes of any input is well behaved.
pub proof fn lemma_method_name_nested(s: Seq<u8>, p: int)
    requires
        0 <= p <= s.len(),
    ensures
        nested(s, p, members::method_name(s, p)),
{
    reveal(members::method_name);
    crate::nesting::names::lemma_lower_ident_nested(s, p);
    let a = names::lower_ident(s, p);
    if a.ok {
        lemma_one_nested(s, a.end, Class::Suffix);
        lemma_opt_nested(s, a.end, one(s, a.end, Class::Suffix));
    }
    lemma_join_nested(s, p, a, opt(a.end, one(s, a.end, Class::Suffix)));
    let b = join(a, opt(a.end, one(s, a.end, Class::Suffix)));
    lemma_node_nested(s, Rule::MethodName, p, b);
}

/// What `spaced_type_list` makes of any input is well behaved.
pub proof fn lemma_spaced_type_list_nested(s: Seq<u8>, p: int)
    requires
        0 <= p <= s.len(),
    ensures
        nested(s, p, members::spaced_type_list(s, p)),
{
    reveal(members::spaced_type_list);
    crate::nesting::types::lemma_type_list_nested(s, p);
    let a = types::type_list(s, p);
    if a.ok {
        lemma_trivia_nested(s, a.end);
    }
    lemma_join_nested(s, p, a, trivia(s, a.end));
    let b = join(a, trivia(s, a.end));
    lemma_quiet_nested(s, p, b);
}

/// What `params` makes of any input is well behaved.
pub proof fn lemma_params_nested(s: Seq<u8>, p: int)
    requires
        0 <= p <= s.len(),
    ensures
        nested(s, p, members::params(s, p)),
{
    reveal(members::params);
    lemma_byte_nested(s, p, LEFT_PAREN);
    let a = byte(s, p, LEFT_PAREN);
    if a.ok {
        lemma_trivia_nested(s, a.end);
    }
    lemma_join_nested(s, p, a, trivia(s, a.end));
    let b = join(a, trivia(s, a.end));
    if b.ok {
        crate::nesting::members::lemma_spaced_type_list_nested(s, b.end);
        lemma_opt_nested(s, b.end, members::spaced_type_list(s, b.end));
    }
    lemma_join_nested(s, p, b, opt(b.end, members::spaced_type_list(s, b.end)));
    let c = join(b, opt(b.end, members::spaced_type_list(s, b.end)));
    if c.ok {
        lemma_byte_nested(s, c.end, RIGHT_PAREN);
    }
    lemma_join_nested(s, p, c, byte(s, c.end, RIGHT_PAREN));
    let d = join(c, byte(s, c.end, RIGHT_PAREN));
    lemma_node_nested(s, Rule::Params, p, d);
}

/// What `method_type` makes of any input is well behaved.
pub proof fn lemma_method_type_nested(s: Seq<u8>, p: int)
    requires
        0 <= p <= s.len(),
    ensures
        nested(s, p, members::method_type(s, p)),
{
    reveal(members::method_type);
    crate::nesting::members::lemma_params_nested(s, p);
    let a = members::params(s, p);
    if a.ok {
        lemma_trivia_nested(s, a.end);
    }
    lemma_join_nested(s, p, a, trivia(s, a.end));
    let b = join(a, trivia(s, a.end));
    if b.ok {
        lemma_literal_nested(s, b.end, "->".spec_bytes());
    }
    lemma_join_nested(s, p, b, literal(s, b.end, "->".spec_bytes()));
    let c = join(b, literal(s, b.end, "->".spec_bytes()));
    if c.ok {
        lemma_trivia_nested(s, c.end);
    }
    lemma_join_nested(s, p, c, trivia(s, c.end));
    let d = join(c, trivia(s, c.end));
    if d.ok {
        crate::nesting::types::lemma_type_expr_nested(s, d.end);
    }
    lemma_join_nested(s, p, d, types::type_expr(s, d.end));
    let e = join(d, types::type_expr(s, d.end));
    lemma_node_nested(s, Rule::MethodType, p, e);
}

/// What `member_method` makes of any input is well behaved.
pub proof fn lemma_member_method_nested(s: Seq<u8>, p: int)
    requires
        0 <= p <= s.len(),
    ensures
        nested(s, p, members::member_method(s, p)),
{
    reveal(members::member_method);
    lemma_keyword_nested(s, p, "def".spec_bytes());
    let a = keyword(s, p, "def".spec_bytes());
    if a.ok {
        lemma_trivia_nested(s, a.end);
    }
    lemma_join_nested(s, p, a, trivia(s, a.end));
    let b = join(a, trivia(s, a.end));
    if b.ok {
        crate::nesting::members::lemma_spaced_receiver_nested(s, b.end);
        lemma_opt_nested(s, b.end, members::spaced_receiver(s, b.end));
    }
    lemma_join_nested(s, p, b, opt(b.end, members::spaced_receiver(s, b.end)));
    let c = join(b, opt(b.end, members::spaced_receiver(s, b.end)));
    if c.ok {
        crate::nesting::members::lemma_method_name_nested(s, c.end);
    }
    lemma_join_nested(s, p, c, members::method_name(s, c.end));
    let d = join(c, members::method_name(s, c.end));
    if d.ok {
        lemma_trivia_nested(s, d.end);
    }
    lemma_join_nested(s, p, d, trivia(s, d.end));
    let e = join(d, trivia(s, d.end));
    if e.ok {
        lemma_byte_nested(s, e.end, COLON);
    }
    lemma_join_nested(s, p, e, byte(s, e.end, COLON));
    let f = join(e, byte(s, e.end, COLON));
    if f.ok {
        lemma_trivia_nested(s, f.end);
    }
    lemma_join_nested(s, p, f, trivia(s, f.end));
    let g = join(f, trivia(s, f.end));
    if g.ok {
        crate::nesting::members::lemma_method_type_nested(s, g.end);
    }
    lemma_join_nested(s, p, g, members::method_type(s, g.end));
    let h = join(g, members::method_type(s, g.end));
    lemma_node_nested(s, Rule::MemberMethod, p, h);
}

/// What `method_ref` makes of any input is well behaved.
pub proof fn lemma_method_ref_nested(s: Seq<u8>, p: int)
    requires
        0 <= p <= s.len(),
    ensures
        nested(s, p, members::method_ref(s, p)),
{
    reveal(members::method_ref);
    crate::nesting::members::lemma_spaced_receiver_self_nested(s, p);
    lemma_opt_nested(s, p, members::spaced_receiver_self(s, p));
    let a = opt(p, members::spaced_receiver_self(s, p));
    if a.ok {
        crate::nesting::members::lemma_method_name_nested(s, a.end);
    }
    lemma_join_nested(s, p, a, members::method_name(s, a.end));
    let b = join(a, members::method_name(s, a.end));
    lemma_node_nested(s, Rule::MethodRef, p, b);
}

/// What `member_alias` makes of any input is well behaved.
pub proof fn lemma_member_alias_nested(s: Seq<u8>, p: int)
    requires
        0 <= p <= s.len(),
    ensures
        nested(s, p, members::member_alias(s, p)),
{
    reveal(members::member_alias);
    lemma_keyword_nested(s, p, "alias".spec_bytes());
    let a = keyword(s, p, "alias".spec_bytes());
    if a.ok {
        lemma_trivia_nested(s, a.end);
    }
    lemma_join_nested(s, p, a, trivia(s, a.end));
    let b = join(a, trivia(s, a.end));
    if b.ok {
        crate::nesting::members::lemma_method_ref_nested(s, b.end);
    }
    lemma_join_nested(s, p, b, members::method_ref(s, b.end));
    let c = join(b, members::method_ref(s, b.end));
    if c.ok {
        lemma_trivia_nested(s, c.end);
    }
    lemma_join_nested(s, p, c, trivia(s, c.end));
    let d = join(c, trivia(s, c.end));
    if d.ok {
        crate::nesting::members::lemma_method_ref_nested(s, d.end);
    }
    lemma_join_nested(s, p, d, members::method_ref(s, d.end));
    let e = join(d, members::method_ref(s, d.end));
    lemma_node_nested(s, Rule::MemberAlias, p, e);
}

/// What `attr_reader` makes of any input is well behaved.
pub proof fn lemma_attr_reader_nested(s: Seq<u8>, p: int)
    requires
        0 <= p <= s.len(),
    ensures
        nested(s, p, members::attr_reader(s, p)),
{
    reveal(members::attr_reader);
    lemma_keyword_nested(s, p, "attr_reader".spec_bytes());
    let a = keyword(s, p, "attr_reader".spec_bytes());
    lemma_node_nested(s, Rule::AttrReader, p, a);
}

/// What `attr_writer` makes of any input is well behaved.
pub proof fn lemma_attr_writer_nested(s: Seq<u8>, p: int)
    requires
        0 <= p <= s.len(),
    ensures
        nested(s, p, members::attr_writer(s, p)),
{
    reveal(members::attr_writer);
    lemma_keyword_nested(s, p, "attr_writer".spec_bytes());
    let a = keyword(s, p, "attr_writer".spec_bytes());
    lemma_node_nested(s, Rule::AttrWriter, p, a);
}

/// What `attr_accessor` makes of any input is well behaved.
pub proof fn lemma_attr_accessor_nested(s: Seq<u8>, p: int)
    requires
        0 <= p <= s.len(),
    ensures
        nested(s, p, members::attr_accessor(s, p)),
{
    reveal(members::attr_accessor);
    lemma_keyword_nested(s, p, "attr_accessor".spec_bytes());
    let a = keyword(s, p, "attr_accessor".spec_bytes());
    lemma_node_nested(s, Rule::AttrAccessor, p, a);
}

/// What `attribute_kind` makes of any input is well behaved.
pub proof fn lemma_attribute_kind_nested(s: Seq<u8>, p: int)
    requires
        0 <= p <= s.len(),
    ensures
        nested(s, p, members::attribute_kind(s, p)),
{
    reveal(members::attribute_kind);
    crate::nesting::members::lemma_attr_reader_nested(s, p);
    crate::nesting::members::lemma_attr_writer_nested(s, p);
    crate::nesting::members::lemma_attr_accessor_nested(s, p);
    lemma_either_nested(s, p, members::attr_writer(s, p), members::attr_accessor(s, p));
    lemma_either_nested(
        s,
        p,
        members::attr_reader(s, p),
        either(members::attr_writer(s, p), members::attr_accessor(s, p)),
    );
}

/// What `attribute_name` makes of any input is well behaved.
pub proof fn lemma_attribute_name_nested(s: Seq<u8>, p: int)
    requires
        0 <= p <= s.len(),
    ensures
        nested(s, p, members::attribute_name(s, p)),
{
    reveal(members::attribute_name);
    crate::nesting::names::lemma_lower_ident_nested(s, p);
    let a = names::lower_ident(s, p);
    lemma_node_nested(s, Rule::AttributeName, p, a);
}

/// What `ivar_name` makes of any input is well behaved.
pub proof fn lemma_ivar_name_nested(s: Seq<u8>, p: int)
    requires
        0 <= p <= s.len(),
    ensures
        nested(s, p, members::ivar_name(s, p)),
{
    reveal(members::ivar_name);
    lemma_byte_nested(s, p, AT);
    let a = byte(s, p, AT);
    if a.ok {
        lemma_one_nested(s, a.end, Class::IdentStart);
    }
    lemma_join_nested(s, p, a, one(s, a.end, Class::IdentStart));
    let b = join(a, one(s, a.end, Class::IdentStart));
    if b.ok {
        lemma_run_nested(s, b.end, Class::Word);
    }
    lemma_join_nested(s, p, b, run(s, b.end, Class::Word));
    let c = join(b, run(s, b.end, Class::Word));
    lemma_node_nested(s, Rule::IvarName, p, c);
}

/// What `spaced_ivar_name` makes of any input is well behaved.
pub proof fn lemma_spaced_ivar_name_nested(s: Seq<u8>, p: int)
    requires
        0 <= p <= s.len(),
    ensures
        nested(s, p, members::spaced_ivar_name(s, p)),
{
    reveal(members::spaced_ivar_name);
    crate::nesting::members::lemma_ivar_name_nested(s, p);
    let a = members::ivar_name(s, p);
    if a.ok {
        lemma_trivia_nested(s, a.end);
    }
    lemma_join_nested(s, p, a, trivia(s, a.end));
    let b = join(a, trivia(s, a.end));
    lemma_quiet_nested(s, p, b);
}

/// What `ivar_clause` makes of any input is well behaved.
pub proof fn lemma_ivar_clause_nested(s: Seq<u8>, p: int)
    requires
        0 <= p <= s.len(),
    ensures
        nested(s, p, members::ivar_clause(s, p)),
{
    reveal(members::ivar_clause);
    lemma_byte_nested(s, p, LEFT_PAREN);
    let a = byte(s, p, LEFT_PAREN);
    if a.ok {
        lemma_trivia_nested(s, a.end);
    }
    lemma_join_nested(s, p, a, trivia(s, a.end));
    let b = join(a, trivia(s, a.end));
    if b.ok {
        crate::nesting::members::lemma_spaced_ivar_name_nested(s, b.end);
        lemma_opt_nested(s, b.end, members::spaced_ivar_name(s, b.end));
    }
    lemma_join_nested(s, p, b, opt(b.end, members::spaced_ivar_name(s, b.end)));
    let c = join(b, opt(b.end, members::spaced_ivar_name(s, b.end)));
    if c.ok {
        lemma_byte_nested(s, c.end, RIGHT_PAREN);
    }
    lemma_join_nested(s, p, c, byte(s, c.end, RIGHT_PAREN));
    let d = join(c, byte(s, c.end, RIGHT_PAREN));
    lemma_node_nested(s, Rule::IvarClause, p, d);
}

/// What `spaced_ivar_clause` makes of any input is well behaved.
pub proof fn lemma_spaced_ivar_clause_nested(s: Seq<u8>, p: int)
    requires
        0 <= p <= s.len(),
    ensures
        nested(s, p, members::spaced_ivar_clause(s, p)),
{
    reveal(members::spaced_ivar_clause);
    lemma_trivia_nested(s, p);
    let a = trivia(s, p);
    if a.ok {
        crate::nesting::members::lemma_ivar_clause_nested(s, a.end);
    }
    lemma_join_nested(s, p, a, members::ivar_clause(s, a.end));
    let b = join(a, members::ivar_clause(s, a.end));
    lemma_quiet_nested(s, p, b);
}

/// What `member_attribute` makes of any input is well behaved.
pub proof fn lemma_member_attribute_nested(s: Seq<u8>, p: int)
    requires
        0 <= p <= s.len(),
    ensures
        nested(s, p, members::member_attribute(s, p)),
{
    reveal(members::member_attribute);
    crate::nesting::members::lemma_attribute_kind_nested(s, p);
    let a = members::attribute_kind(s, p);
    if a.ok {
        lemma_trivia_nested(s, a.end);
    }
    lemma_join_nested(s, p, a, trivia(s, a.end));
    let b = join(a, trivia(s, a.end));
    if b.ok {
        crate::nesting::members::lemma_attribute_name_nested(s, b.end);
    }
    lemma_join_nested(s, p, b, members::attribute_name(s, b.end));
    let c = join(b, members::attribute_name(s, b.end));
    if c.ok {
        crate::nesting::members::lemma_spaced_ivar_clause_nested(s, c.end);
        lemma_opt_nested(s, c.end, members::spaced_ivar_clause(s, c.end));
    }
    lemma_join_nested(s, p, c, opt(c.end, members::spaced_ivar_clause(s, c.end)));
    let d = join(c, opt(c.end, members::spaced_ivar_clause(s, c.end)));
    if d.ok {
        lemma_trivia_nested(s, d.end);
    }
    lemma_join_nested(s, p, d, trivia(s, d.end));
    let e = join(d, trivia(s, d.end));
    if e.ok {
        lemma_byte_nested(s, e.end, COLON);
    }
    lemma_join_nested(s, p, e, byte(s, e.end, COLON));
    let f = join(e, byte(s, e.end, COLON));
    if f.ok {
        lemma_trivia_nested(s, f.end);
    }
    lemma_join_nested(s, p, f, trivia(s, f.end));
    let g = join(f, trivia(s, f.end));
    if g.ok {
        crate::nesting::types::lemma_type_expr_nested(s, g.end);
    }
    lemma_join_nested(s, p, g, types::type_expr(s, g.end));
    let h = join(g, types::type_expr(s, g.end));
    lemma_node_nested(s, Rule::MemberAttribute, p, h);
}

/// What `mixin_target` makes of any input is well behaved.
pub proof fn lemma_mixin_target_nested(s: Seq<u8>, p: int)
    requires
        0 <= p <= s.len(),
    ensures
        nested(s, p, members::mixin_target(s, p)),
{
    reveal(members::mixin_target);
    crate::nesting::types::lemma_type_interface_name_nested(s, p);
    crate::nesting::types::lemma_type_class_instance_name_nested(s, p);
    lemma_either_nested(
        s,
        p,
        types::type_interface_name(s, p),
        types::type_class_instance_name(s, p),
    );
}

/// What `member_include` makes of any input is well behaved.
pub proof fn lemma_member_include_nested(s: Seq<u8>, p: int)
    requires
        0 <= p <= s.len(),
    ensures
        nested(s, p, members::member_include(s, p)),
{
    reveal(members::member_include);
    lemma_keyword_nested(s, p, "include".spec_bytes());
    let a = keyword(s, p, "include".spec_bytes());
    if a.ok {
        lemma_trivia_nested(s, a.end);
    }
    lemma_join_nested(s, p, a, trivia(s, a.end));
    let b = join(a, trivia(s, a.end));
    if b.ok {
        crate::nesting::members::lemma_mixin_target_nested(s, b.end);
    }
    lemma_join_nested(s, p, b, members::mixin_target(s, b.end));
    let c = join(b, members::mixin_target(s, b.end));
    lemma_node_nested(s, Rule::MemberInclude, p, c);
}

/// What `member_extend` makes of any input is well behaved.
pub proof fn lemma_member_extend_nested(s: Seq<u8>, p: int)
    requires
        0 <= p <= s.len(),
    ensures
        nested(s, p, members::member_extend(s, p)),
{
    reveal(members::member_extend);
    lemma_keyword_nested(s, p, "extend".spec_bytes());
    let a = keyword(s, p, "extend".spec_bytes());
    if a.ok {
        lemma_trivia_nested(s, a.end);
    }
    lemma_join_nested(s, p, a, trivia(s, a.end));
    let b = join(a, trivia(s, a.end));
    if b.ok {
        crate::nesting::members::lemma_mixin_target_nested(s, b.end);
    }
    lemma_join_nested(s, p, b, members::mixin_target(s, b.end));
    let c = join(b, members::mixin_target(s, b.end));
    lemma_node_nested(s, Rule::MemberExtend, p, c);
}

/// What `member` makes of any input is well behaved.
pub proof fn lemma_member_nested(s: Seq<u8>, p: int)
    requires
        0 <= p <= s.len(),
    ensures
        nested(s, p, members::member(s, p)),
{
    reveal(members::member);
    crate::nesting::members::lemma_member_method_nested(s, p);
    crate::nesting::members::lemma_member_alias_nested(s, p);
    crate::nesting::members::lemma_member_attribute_nested(s, p);
    crate::nesting::members::lemma_member_include_nested(s, p);
    crate::nesting::members::lemma_member_extend_nested(s, p);
    lemma_either_nested(s, p, members::member_include(s, p), members::member_extend(s, p));
    lemma_either_nested(
        s,
        p,
        members::member_attribute(s, p),
        either(members::member_include(s, p), members::member_extend(s, p)),
    );
    lemma_either_nested(
        s,
        p,
        members::member_alias(s, p),
        either(
            members::member_attribute(s, p),
            either(members::member_include(s, p), members::member_extend(s, p)),
        ),
    );
    lemma_either_nested(
        s,
        p,
        members::member_method(s, p),
        either(
            members::member_alias(s, p),
            either(
                members::member_attribute(s, p),
                either(members::member_include(s, p), members::member_extend(s, p)),
            ),
        ),
    );
}

} // verus!
