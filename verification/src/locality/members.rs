use vstd::prelude::*;
use vstd::string::StringSliceAdditionalSpecFns;
use crate::grammar::lexical::{
    byte, keyword, literal, one, run, trivia, Class, AT, COLON, DOT, LEFT_PAREN, QUESTION,
    RIGHT_PAREN,
};
use crate::grammar::step::{either, join, opt};
use crate::grammar::{members, names, types};
use crate::locality::agreeing::{
    agree, lemma_agree_length, lemma_agree_less, lemma_byte_local, lemma_keyword_local,
    lemma_literal_local, lemma_one_local, lemma_run_local, lemma_trivia_local,
};
use crate::nesting::forest::{
    lemma_byte_nested, lemma_keyword_nested, lemma_literal_nested, lemma_one_nested,
    lemma_run_nested, lemma_trivia_nested,
};

verus! {

/// `receiver_self` does the same on two inputs that agree in what it looked at.
pub proof fn lemma_receiver_self_local(s: Seq<u8>, t: Seq<u8>, p: int)
    requires
        0 <= p <= s.len(),
        agree(s, t, members::receiver_self(s, p).seen),
    ensures
        members::receiver_self(t, p) == members::receiver_self(s, p),
{
    reveal(members::receiver_self);
    let n = members::receiver_self(s, p).seen;
    lemma_keyword_nested(s, p, "self".spec_bytes());
    lemma_agree_less(s, t, n, keyword(s, p, "self".spec_bytes()).seen);
    lemma_keyword_local(s, t, p, "self".spec_bytes());
    let a = keyword(s, p, "self".spec_bytes());
    if a.ok {
        lemma_agree_length(s, t, n, a.end);
        lemma_trivia_nested(s, a.end);
        lemma_agree_less(s, t, n, trivia(s, a.end).seen);
        lemma_trivia_local(s, t, a.end);
    }
    crate::nesting::forest::lemma_join_nested(s, p, a, trivia(s, a.end));
    let b = join(a, trivia(s, a.end));
    if b.ok {
        lemma_agree_length(s, t, n, b.end);
        lemma_byte_nested(s, b.end, DOT);
        lemma_agree_less(s, t, n, byte(s, b.end, DOT).seen);
        lemma_byte_local(s, t, b.end, DOT);
    }
    crate::nesting::forest::lemma_join_nested(s, p, b, byte(s, b.end, DOT));
    let c = join(b, byte(s, b.end, DOT));
}

/// `receiver_self_or_instance` does the same on two inputs that agree in what it looked at.
pub proof fn lemma_receiver_self_or_instance_local(s: Seq<u8>, t: Seq<u8>, p: int)
    requires
        0 <= p <= s.len(),
        agree(s, t, members::receiver_self_or_instance(s, p).seen),
    ensures
        members::receiver_self_or_instance(t, p) == members::receiver_self_or_instance(s, p),
{
    reveal(members::receiver_self_or_instance);
    let n = members::receiver_self_or_instance(s, p).seen;
    lemma_keyword_nested(s, p, "self".spec_bytes());
    lemma_agree_less(s, t, n, keyword(s, p, "self".spec_bytes()).seen);
    lemma_keyword_local(s, t, p, "self".spec_bytes());
    let a = keyword(s, p, "self".spec_bytes());
    if a.ok {
        lemma_agree_length(s, t, n, a.end);
        lemma_trivia_nested(s, a.end);
        lemma_agree_less(s, t, n, trivia(s, a.end).seen);
        lemma_trivia_local(s, t, a.end);
    }
    crate::nesting::forest::lemma_join_nested(s, p, a, trivia(s, a.end));
    let b = join(a, trivia(s, a.end));
    if b.ok {
        lemma_agree_length(s, t, n, b.end);
        lemma_byte_nested(s, b.end, QUESTION);
        lemma_agree_less(s, t, n, byte(s, b.end, QUESTION).seen);
        lemma_byte_local(s, t, b.end, QUESTION);
    }
    crate::nesting::forest::lemma_join_nested(s, p, b, byte(s, b.end, QUESTION));
    let c = join(b, byte(s, b.end, QUESTION));
    if c.ok {
        lemma_agree_length(s, t, n, c.end);
        lemma_trivia_nested(s, c.end);
        lemma_agree_less(s, t, n, trivia(s, c.end).seen);
        lemma_trivia_local(s, t, c.end);
    }
    crate::nesting::forest::lemma_join_nested(s, p, c, trivia(s, c.end));
    let d = join(c, trivia(s, c.end));
    if d.ok {
        lemma_agree_length(s, t, n, d.end);
        lemma_byte_nested(s, d.end, DOT);
        lemma_agree_less(s, t, n, byte(s, d.end, DOT).seen);
        lemma_byte_local(s, t, d.end, DOT);
    }
    crate::nesting::forest::lemma_join_nested(s, p, d, byte(s, d.end, DOT));
    let e = join(d, byte(s, d.end, DOT));
}

/// `spaced_receiver` does the same on two inputs that agree in what it looked at.
pub proof fn lemma_spaced_receiver_local(s: Seq<u8>, t: Seq<u8>, p: int)
    requires
        0 <= p <= s.len(),
        agree(s, t, members::spaced_receiver(s, p).seen),
    ensures
        members::spaced_receiver(t, p) == members::spaced_receiver(s, p),
{
    reveal(members::spaced_receiver);
    let n = members::spaced_receiver(s, p).seen;
    crate::nesting::members::lemma_receiver_self_or_instance_nested(s, p);
    lemma_agree_less(s, t, n, members::receiver_self_or_instance(s, p).seen);
    crate::locality::members::lemma_receiver_self_or_instance_local(s, t, p);
    if !members::receiver_self_or_instance(s, p).ok {
        crate::nesting::members::lemma_receiver_self_nested(s, p);
        lemma_agree_less(s, t, n, members::receiver_self(s, p).seen);
        crate::locality::members::lemma_receiver_self_local(s, t, p);
    }
    let a = either(members::receiver_self_or_instance(s, p), members::receiver_self(s, p));
    if a.ok {
        lemma_agree_length(s, t, n, a.end);
        lemma_trivia_nested(s, a.end);
        lemma_agree_less(s, t, n, trivia(s, a.end).seen);
        lemma_trivia_local(s, t, a.end);
    }
    crate::nesting::forest::lemma_join_nested(s, p, a, trivia(s, a.end));
    let b = join(a, trivia(s, a.end));
}

/// `spaced_receiver_self` does the same on two inputs that agree in what it looked at.
pub proof fn lemma_spaced_receiver_self_local(s: Seq<u8>, t: Seq<u8>, p: int)
    requires
        0 <= p <= s.len(),
        agree(s, t, members::spaced_receiver_self(s, p).seen),
    ensures
        members::spaced_receiver_self(t, p) == members::spaced_receiver_self(s, p),
{
    reveal(members::spaced_receiver_self);
    let n = members::spaced_receiver_self(s, p).seen;
    crate::nesting::members::lemma_receiver_self_nested(s, p);
    lemma_agree_less(s, t, n, members::receiver_self(s, p).seen);
    crate::locality::members::lemma_receiver_self_local(s, t, p);
    let a = members::receiver_self(s, p);
    if a.ok {
        lemma_agree_length(s, t, n, a.end);
        lemma_trivia_nested(s, a.end);
        lemma_agree_less(s, t, n, trivia(s, a.end).seen);
        lemma_trivia_local(s, t, a.end);
    }
    crate::nesting::forest::lemma_join_nested(s, p, a, trivia(s, a.end));
    let b = join(a, trivia(s, a.end));
}

/// `method_name` does the same on two inputs that agree in what it looked at.
pub proof fn lemma_method_name_local(s: Seq<u8>, t: Seq<u8>, p: int)
    requires
        0 <= p <= s.len(),
        agree(s, t, members::method_name(s, p).seen),
    ensures
        members::method_name(t, p) == members::method_name(s, p),
{
    reveal(members::method_name);
    let n = members::method_name(s, p).seen;
    crate::nesting::names::lemma_lower_ident_nested(s, p);
    lemma_agree_less(s, t, n, names::lower_ident(s, p).seen);
    crate::locality::names::lemma_lower_ident_local(s, t, p);
    let a = names::lower_ident(s, p);
    if a.ok {
        lemma_agree_length(s, t, n, a.end);
        lemma_one_nested(s, a.end, Class::Suffix);
        lemma_agree_less(s, t, n, one(s, a.end, Class::Suffix).seen);
        lemma_one_local(s, t, a.end, Class::Suffix);
    }
    crate::nesting::forest::lemma_join_nested(s, p, a, opt(a.end, one(s, a.end, Class::Suffix)));
    let b = join(a, opt(a.end, one(s, a.end, Class::Suffix)));
}

/// `spaced_type_list` does the same on two inputs that agree in what it looked at.
pub proof fn lemma_spaced_type_list_local(s: Seq<u8>, t: Seq<u8>, p: int)
    requires
        0 <= p <= s.len(),
        agree(s, t, members::spaced_type_list(s, p).seen),
    ensures
        members::spaced_type_list(t, p) == members::spaced_type_list(s, p),
{
    reveal(members::spaced_type_list);
    let n = members::spaced_type_list(s, p).seen;
    crate::nesting::types::lemma_type_list_nested(s, p);
    lemma_agree_less(s, t, n, types::type_list(s, p).seen);
    crate::locality::types::lemma_type_list_local(s, t, p);
    let a = types::type_list(s, p);
    if a.ok {
        lemma_agree_length(s, t, n, a.end);
        lemma_trivia_nested(s, a.end);
        lemma_agree_less(s, t, n, trivia(s, a.end).seen);
        lemma_trivia_local(s, t, a.end);
    }
    crate::nesting::forest::lemma_join_nested(s, p, a, trivia(s, a.end));
    let b = join(a, trivia(s, a.end));
}

/// `params` does the same on two inputs that agree in what it looked at.
pub proof fn lemma_params_local(s: Seq<u8>, t: Seq<u8>, p: int)
    requires
        0 <= p <= s.len(),
        agree(s, t, members::params(s, p).seen),
    ensures
        members::params(t, p) == members::params(s, p),
{
    reveal(members::params);
    let n = members::params(s, p).seen;
    lemma_byte_nested(s, p, LEFT_PAREN);
    lemma_agree_less(s, t, n, byte(s, p, LEFT_PAREN).seen);
    lemma_byte_local(s, t, p, LEFT_PAREN);
    let a = byte(s, p, LEFT_PAREN);
    if a.ok {
        lemma_agree_length(s, t, n, a.end);
        lemma_trivia_nested(s, a.end);
        lemma_agree_less(s, t, n, trivia(s, a.end).seen);
        lemma_trivia_local(s, t, a.end);
    }
    crate::nesting::forest::lemma_join_nested(s, p, a, trivia(s, a.end));
    let b = join(a, trivia(s, a.end));
    if b.ok {
        lemma_agree_length(s, t, n, b.end);
        crate::nesting::members::lemma_spaced_type_list_nested(s, b.end);
        lemma_agree_less(s, t, n, members::spaced_type_list(s, b.end).seen);
        crate::locality::members::lemma_spaced_type_list_local(s, t, b.end);
    }
    crate::nesting::forest::lemma_join_nested(
        s,
        p,
        b,
        opt(b.end, members::spaced_type_list(s, b.end)),
    );
    let c = join(b, opt(b.end, members::spaced_type_list(s, b.end)));
    if c.ok {
        lemma_agree_length(s, t, n, c.end);
        lemma_byte_nested(s, c.end, RIGHT_PAREN);
        lemma_agree_less(s, t, n, byte(s, c.end, RIGHT_PAREN).seen);
        lemma_byte_local(s, t, c.end, RIGHT_PAREN);
    }
    crate::nesting::forest::lemma_join_nested(s, p, c, byte(s, c.end, RIGHT_PAREN));
    let d = join(c, byte(s, c.end, RIGHT_PAREN));
}

/// `method_type` does the same on two inputs that agree in what it looked at.
pub proof fn lemma_method_type_local(s: Seq<u8>, t: Seq<u8>, p: int)
    requires
        0 <= p <= s.len(),
        agree(s, t, members::method_type(s, p).seen),
    ensures
        members::method_type(t, p) == members::method_type(s, p),
{
    reveal(members::method_type);
    let n = members::method_type(s, p).seen;
    crate::nesting::members::lemma_params_nested(s, p);
    lemma_agree_less(s, t, n, members::params(s, p).seen);
    crate::locality::members::lemma_params_local(s, t, p);
    let a = members::params(s, p);
    if a.ok {
        lemma_agree_length(s, t, n, a.end);
        lemma_trivia_nested(s, a.end);
        lemma_agree_less(s, t, n, trivia(s, a.end).seen);
        lemma_trivia_local(s, t, a.end);
    }
    crate::nesting::forest::lemma_join_nested(s, p, a, trivia(s, a.end));
    let b = join(a, trivia(s, a.end));
    if b.ok {
        lemma_agree_length(s, t, n, b.end);
        lemma_literal_nested(s, b.end, "->".spec_bytes());
        lemma_agree_less(s, t, n, literal(s, b.end, "->".spec_bytes()).seen);
        lemma_literal_local(s, t, b.end, "->".spec_bytes());
    }
    crate::nesting::forest::lemma_join_nested(s, p, b, literal(s, b.end, "->".spec_bytes()));
    let c = join(b, literal(s, b.end, "->".spec_bytes()));
    if c.ok {
        lemma_agree_length(s, t, n, c.end);
        lemma_trivia_nested(s, c.end);
        lemma_agree_less(s, t, n, trivia(s, c.end).seen);
        lemma_trivia_local(s, t, c.end);
    }
    crate::nesting::forest::lemma_join_nested(s, p, c, trivia(s, c.end));
    let d = join(c, trivia(s, c.end));
    if d.ok {
        lemma_agree_length(s, t, n, d.end);
        crate::nesting::types::lemma_type_expr_nested(s, d.end);
        lemma_agree_less(s, t, n, types::type_expr(s, d.end).seen);
        crate::locality::types::lemma_type_expr_local(s, t, d.end);
    }
    crate::nesting::forest::lemma_join_nested(s, p, d, types::type_expr(s, d.end));
    let e = join(d, types::type_expr(s, d.end));
}

/// `member_method` does the same on two inputs that agree in what it looked at.
pub proof fn lemma_member_method_local(s: Seq<u8>, t: Seq<u8>, p: int)
    requires
        0 <= p <= s.len(),
        agree(s, t, members::member_method(s, p).seen),
    ensures
        members::member_method(t, p) == members::member_method(s, p),
{
    reveal(members::member_method);
    let n = members::member_method(s, p).seen;
    lemma_keyword_nested(s, p, "def".spec_bytes());
    lemma_agree_less(s, t, n, keyword(s, p, "def".spec_bytes()).seen);
    lemma_keyword_local(s, t, p, "def".spec_bytes());
    let a = keyword(s, p, "def".spec_bytes());
    if a.ok {
        lemma_agree_length(s, t, n, a.end);
        lemma_trivia_nested(s, a.end);
        lemma_agree_less(s, t, n, trivia(s, a.end).seen);
        lemma_trivia_local(s, t, a.end);
    }
    crate::nesting::forest::lemma_join_nested(s, p, a, trivia(s, a.end));
    let b = join(a, trivia(s, a.end));
    if b.ok {
        lemma_agree_length(s, t, n, b.end);
        crate::nesting::members::lemma_spaced_receiver_nested(s, b.end);
        lemma_agree_less(s, t, n, members::spaced_receiver(s, b.end).seen);
        crate::locality::members::lemma_spaced_receiver_local(s, t, b.end);
    }
    crate::nesting::forest::lemma_join_nested(
        s,
        p,
        b,
        opt(b.end, members::spaced_receiver(s, b.end)),
    );
    let c = join(b, opt(b.end, members::spaced_receiver(s, b.end)));
    if c.ok {
        lemma_agree_length(s, t, n, c.end);
        crate::nesting::members::lemma_method_name_nested(s, c.end);
        lemma_agree_less(s, t, n, members::method_name(s, c.end).seen);
        crate::locality::members::lemma_method_name_local(s, t, c.end);
    }
    crate::nesting::forest::lemma_join_nested(s, p, c, members::method_name(s, c.end));
    let d = join(c, members::method_name(s, c.end));
    if d.ok {
        lemma_agree_length(s, t, n, d.end);
        lemma_trivia_nested(s, d.end);
        lemma_agree_less(s, t, n, trivia(s, d.end).seen);
        lemma_trivia_local(s, t, d.end);
    }
    crate::nesting::forest::lemma_join_nested(s, p, d, trivia(s, d.end));
    let e = join(d, trivia(s, d.end));
    if e.ok {
        lemma_agree_length(s, t, n, e.end);
        lemma_byte_nested(s, e.end, COLON);
        lemma_agree_less(s, t, n, byte(s, e.end, COLON).seen);
        lemma_byte_local(s, t, e.end, COLON);
    }
    crate::nesting::forest::lemma_join_nested(s, p, e, byte(s, e.end, COLON));
    let f = join(e, byte(s, e.end, COLON));
    if f.ok {
        lemma_agree_length(s, t, n, f.end);
        lemma_trivia_nested(s, f.end);
        lemma_agree_less(s, t, n, trivia(s, f.end).seen);
        lemma_trivia_local(s, t, f.end);
    }
    crate::nesting::forest::lemma_join_nested(s, p, f, trivia(s, f.end));
    let g = join(f, trivia(s, f.end));
    if g.ok {
        lemma_agree_length(s, t, n, g.end);
        crate::nesting::members::lemma_method_type_nested(s, g.end);
        lemma_agree_less(s, t, n, members::method_type(s, g.end).seen);
        crate::locality::members::lemma_method_type_local(s, t, g.end);
    }
    crate::nesting::forest::lemma_join_nested(s, p, g, members::method_type(s, g.end));
    let h = join(g, members::method_type(s, g.end));
}

/// `method_ref` does the same on two inputs that agree in what it looked at.
pub proof fn lemma_method_ref_local(s: Seq<u8>, t: Seq<u8>, p: int)
    requires
        0 <= p <= s.len(),
        agree(s, t, members::method_ref(s, p).seen),
    ensures
        members::method_ref(t, p) == members::method_ref(s, p),
{
    reveal(members::method_ref);
    let n = members::method_ref(s, p).seen;
    crate::nesting::members::lemma_spaced_receiver_self_nested(s, p);
    lemma_agree_less(s, t, n, members::spaced_receiver_self(s, p).seen);
    crate::locality::members::lemma_spaced_receiver_self_local(s, t, p);
    let a = opt(p, members::spaced_receiver_self(s, p));
    if a.ok {
        lemma_agree_length(s, t, n, a.end);
        crate::nesting::members::lemma_method_name_nested(s, a.end);
        lemma_agree_less(s, t, n, members::method_name(s, a.end).seen);
        crate::locality::members::lemma_method_name_local(s, t, a.end);
    }
    crate::nesting::forest::lemma_join_nested(s, p, a, members::method_name(s, a.end));
    let b = join(a, members::method_name(s, a.end));
}

/// `member_alias` does the same on two inputs that agree in what it looked at.
pub proof fn lemma_member_alias_local(s: Seq<u8>, t: Seq<u8>, p: int)
    requires
        0 <= p <= s.len(),
        agree(s, t, members::member_alias(s, p).seen),
    ensures
        members::member_alias(t, p) == members::member_alias(s, p),
{
    reveal(members::member_alias);
    let n = members::member_alias(s, p).seen;
    lemma_keyword_nested(s, p, "alias".spec_bytes());
    lemma_agree_less(s, t, n, keyword(s, p, "alias".spec_bytes()).seen);
    lemma_keyword_local(s, t, p, "alias".spec_bytes());
    let a = keyword(s, p, "alias".spec_bytes());
    if a.ok {
        lemma_agree_length(s, t, n, a.end);
        lemma_trivia_nested(s, a.end);
        lemma_agree_less(s, t, n, trivia(s, a.end).seen);
        lemma_trivia_local(s, t, a.end);
    }
    crate::nesting::forest::lemma_join_nested(s, p, a, trivia(s, a.end));
    let b = join(a, trivia(s, a.end));
    if b.ok {
        lemma_agree_length(s, t, n, b.end);
        crate::nesting::members::lemma_method_ref_nested(s, b.end);
        lemma_agree_less(s, t, n, members::method_ref(s, b.end).seen);
        crate::locality::members::lemma_method_ref_local(s, t, b.end);
    }
    crate::nesting::forest::lemma_join_nested(s, p, b, members::method_ref(s, b.end));
    let c = join(b, members::method_ref(s, b.end));
    if c.ok {
        lemma_agree_length(s, t, n, c.end);
        lemma_trivia_nested(s, c.end);
        lemma_agree_less(s, t, n, trivia(s, c.end).seen);
        lemma_trivia_local(s, t, c.end);
    }
    crate::nesting::forest::lemma_join_nested(s, p, c, trivia(s, c.end));
    let d = join(c, trivia(s, c.end));
    if d.ok {
        lemma_agree_length(s, t, n, d.end);
        crate::nesting::members::lemma_method_ref_nested(s, d.end);
        lemma_agree_less(s, t, n, members::method_ref(s, d.end).seen);
        crate::locality::members::lemma_method_ref_local(s, t, d.end);
    }
    crate::nesting::forest::lemma_join_nested(s, p, d, members::method_ref(s, d.end));
    let e = join(d, members::method_ref(s, d.end));
}

/// `attr_reader` does the same on two inputs that agree in what it looked at.
pub proof fn lemma_attr_reader_local(s: Seq<u8>, t: Seq<u8>, p: int)
    requires
        0 <= p <= s.len(),
        agree(s, t, members::attr_reader(s, p).seen),
    ensures
        members::attr_reader(t, p) == members::attr_reader(s, p),
{
    reveal(members::attr_reader);
    let n = members::attr_reader(s, p).seen;
    lemma_keyword_nested(s, p, "attr_reader".spec_bytes());
    lemma_agree_less(s, t, n, keyword(s, p, "attr_reader".spec_bytes()).seen);
    lemma_keyword_local(s, t, p, "attr_reader".spec_bytes());
    let a = keyword(s, p, "attr_reader".spec_bytes());
}

/// `attr_writer` does the same on two inputs that agree in what it looked at.
pub proof fn lemma_attr_writer_local(s: Seq<u8>, t: Seq<u8>, p: int)
    requires
        0 <= p <= s.len(),
        agree(s, t, members::attr_writer(s, p).seen),
    ensures
        members::attr_writer(t, p) == members::attr_writer(s, p),
{
    reveal(members::attr_writer);
    let n = members::attr_writer(s, p).seen;
    lemma_keyword_nested(s, p, "attr_writer".spec_bytes());
    lemma_agree_less(s, t, n, keyword(s, p, "attr_writer".spec_bytes()).seen);
    lemma_keyword_local(s, t, p, "attr_writer".spec_bytes());
    let a = keyword(s, p, "attr_writer".spec_bytes());
}

/// `attr_accessor` does the same on two inputs that agree in what it looked at.
pub proof fn lemma_attr_accessor_local(s: Seq<u8>, t: Seq<u8>, p: int)
    requires
        0 <= p <= s.len(),
        agree(s, t, members::attr_accessor(s, p).seen),
    ensures
        members::attr_accessor(t, p) == members::attr_accessor(s, p),
{
    reveal(members::attr_accessor);
    let n = members::attr_accessor(s, p).seen;
    lemma_keyword_nested(s, p, "attr_accessor".spec_bytes());
    lemma_agree_less(s, t, n, keyword(s, p, "attr_accessor".spec_bytes()).seen);
    lemma_keyword_local(s, t, p, "attr_accessor".spec_bytes());
    let a = keyword(s, p, "attr_accessor".spec_bytes());
}

/// `attribute_kind` does the same on two inputs that agree in what it looked at.
pub proof fn lemma_attribute_kind_local(s: Seq<u8>, t: Seq<u8>, p: int)
    requires
        0 <= p <= s.len(),
        agree(s, t, members::attribute_kind(s, p).seen),
    ensures
        members::attribute_kind(t, p) == members::attribute_kind(s, p),
{
    reveal(members::attribute_kind);
    let n = members::attribute_kind(s, p).seen;
    crate::nesting::members::lemma_attr_reader_nested(s, p);
    lemma_agree_less(s, t, n, members::attr_reader(s, p).seen);
    crate::locality::members::lemma_attr_reader_local(s, t, p);
    if !members::attr_reader(s, p).ok {
        crate::nesting::members::lemma_attr_writer_nested(s, p);
        lemma_agree_less(s, t, n, members::attr_writer(s, p).seen);
        crate::locality::members::lemma_attr_writer_local(s, t, p);
        if !members::attr_writer(s, p).ok {
            crate::nesting::members::lemma_attr_accessor_nested(s, p);
            lemma_agree_less(s, t, n, members::attr_accessor(s, p).seen);
            crate::locality::members::lemma_attr_accessor_local(s, t, p);
        }
    }
}

/// `attribute_name` does the same on two inputs that agree in what it looked at.
pub proof fn lemma_attribute_name_local(s: Seq<u8>, t: Seq<u8>, p: int)
    requires
        0 <= p <= s.len(),
        agree(s, t, members::attribute_name(s, p).seen),
    ensures
        members::attribute_name(t, p) == members::attribute_name(s, p),
{
    reveal(members::attribute_name);
    let n = members::attribute_name(s, p).seen;
    crate::nesting::names::lemma_lower_ident_nested(s, p);
    lemma_agree_less(s, t, n, names::lower_ident(s, p).seen);
    crate::locality::names::lemma_lower_ident_local(s, t, p);
    let a = names::lower_ident(s, p);
}

/// `ivar_name` does the same on two inputs that agree in what it looked at.
pub proof fn lemma_ivar_name_local(s: Seq<u8>, t: Seq<u8>, p: int)
    requires
        0 <= p <= s.len(),
        agree(s, t, members::ivar_name(s, p).seen),
    ensures
        members::ivar_name(t, p) == members::ivar_name(s, p),
{
    reveal(members::ivar_name);
    let n = members::ivar_name(s, p).seen;
    lemma_byte_nested(s, p, AT);
    lemma_agree_less(s, t, n, byte(s, p, AT).seen);
    lemma_byte_local(s, t, p, AT);
    let a = byte(s, p, AT);
    if a.ok {
        lemma_agree_length(s, t, n, a.end);
        lemma_one_nested(s, a.end, Class::IdentStart);
        lemma_agree_less(s, t, n, one(s, a.end, Class::IdentStart).seen);
        lemma_one_local(s, t, a.end, Class::IdentStart);
    }
    crate::nesting::forest::lemma_join_nested(s, p, a, one(s, a.end, Class::IdentStart));
    let b = join(a, one(s, a.end, Class::IdentStart));
    if b.ok {
        lemma_agree_length(s, t, n, b.end);
        lemma_run_nested(s, b.end, Class::Word);
        lemma_agree_less(s, t, n, run(s, b.end, Class::Word).seen);
        lemma_run_local(s, t, b.end, Class::Word);
    }
    crate::nesting::forest::lemma_join_nested(s, p, b, run(s, b.end, Class::Word));
    let c = join(b, run(s, b.end, Class::Word));
}

/// `spaced_ivar_name` does the same on two inputs that agree in what it looked at.
pub proof fn lemma_spaced_ivar_name_local(s: Seq<u8>, t: Seq<u8>, p: int)
    requires
        0 <= p <= s.len(),
        agree(s, t, members::spaced_ivar_name(s, p).seen),
    ensures
        members::spaced_ivar_name(t, p) == members::spaced_ivar_name(s, p),
{
    reveal(members::spaced_ivar_name);
    let n = members::spaced_ivar_name(s, p).seen;
    crate::nesting::members::lemma_ivar_name_nested(s, p);
    lemma_agree_less(s, t, n, members::ivar_name(s, p).seen);
    crate::locality::members::lemma_ivar_name_local(s, t, p);
    let a = members::ivar_name(s, p);
    if a.ok {
        lemma_agree_length(s, t, n, a.end);
        lemma_trivia_nested(s, a.end);
        lemma_agree_less(s, t, n, trivia(s, a.end).seen);
        lemma_trivia_local(s, t, a.end);
    }
    crate::nesting::forest::lemma_join_nested(s, p, a, trivia(s, a.end));
    let b = join(a, trivia(s, a.end));
}

/// `ivar_clause` does the same on two inputs that agree in what it looked at.
pub proof fn lemma_ivar_clause_local(s: Seq<u8>, t: Seq<u8>, p: int)
    requires
        0 <= p <= s.len(),
        agree(s, t, members::ivar_clause(s, p).seen),
    ensures
        members::ivar_clause(t, p) == members::ivar_clause(s, p),
{
    reveal(members::ivar_clause);
    let n = members::ivar_clause(s, p).seen;
    lemma_byte_nested(s, p, LEFT_PAREN);
    lemma_agree_less(s, t, n, byte(s, p, LEFT_PAREN).seen);
    lemma_byte_local(s, t, p, LEFT_PAREN);
    let a = byte(s, p, LEFT_PAREN);
    if a.ok {
        lemma_agree_length(s, t, n, a.end);
        lemma_trivia_nested(s, a.end);
        lemma_agree_less(s, t, n, trivia(s, a.end).seen);
        lemma_trivia_local(s, t, a.end);
    }
    crate::nesting::forest::lemma_join_nested(s, p, a, trivia(s, a.end));
    let b = join(a, trivia(s, a.end));
    if b.ok {
        lemma_agree_length(s, t, n, b.end);
        crate::nesting::members::lemma_spaced_ivar_name_nested(s, b.end);
        lemma_agree_less(s, t, n, members::spaced_ivar_name(s, b.end).seen);
        crate::locality::members::lemma_spaced_ivar_name_local(s, t, b.end);
    }
    crate::nesting::forest::lemma_join_nested(
        s,
        p,
        b,
        opt(b.end, members::spaced_ivar_name(s, b.end)),
    );
    let c = join(b, opt(b.end, members::spaced_ivar_name(s, b.end)));
    if c.ok {
        lemma_agree_length(s, t, n, c.end);
        lemma_byte_nested(s, c.end, RIGHT_PAREN);
        lemma_agree_less(s, t, n, byte(s, c.end, RIGHT_PAREN).seen);
        lemma_byte_local(s, t, c.end, RIGHT_PAREN);
    }
    crate::nesting::forest::lemma_join_nested(s, p, c, byte(s, c.end, RIGHT_PAREN));
    let d = join(c, byte(s, c.end, RIGHT_PAREN));
}

/// `spaced_ivar_clause` does the same on two inputs that agree in what it looked at.
pub proof fn lemma_spaced_ivar_clause_local(s: Seq<u8>, t: Seq<u8>, p: int)
    requires
        0 <= p <= s.len(),
        agree(s, t, members::spaced_ivar_clause(s, p).seen),
    ensures
        members::spaced_ivar_clause(t, p) == members::spaced_ivar_clause(s, p),
{
    reveal(members::spaced_ivar_clause);
    let n = members::spaced_ivar_clause(s, p).seen;
    lemma_trivia_nested(s, p);
    lemma_agree_less(s, t, n, trivia(s, p).seen);
    lemma_trivia_local(s, t, p);
    let a = trivia(s, p);
    if a.ok {
        lemma_agree_length(s, t, n, a.end);
        crate::nesting::members::lemma_ivar_clause_nested(s, a.end);
        lemma_agree_less(s, t, n, members::ivar_clause(s, a.end).seen);
        crate::locality::members::lemma_ivar_clause_local(s, t, a.end);
    }
    crate::nesting::forest::lemma_join_nested(s, p, a, members::ivar_clause(s, a.end));
    let b = join(a, members::ivar_clause(s, a.end));
}

/// `member_attribute` does the same on two inputs that agree in what it looked at.
pub proof fn lemma_member_attribute_local(s: Seq<u8>, t: Seq<u8>, p: int)
    requires
        0 <= p <= s.len(),
        agree(s, t, members::member_attribute(s, p).seen),
    ensures
        members::member_attribute(t, p) == members::member_attribute(s, p),
{
    reveal(members::member_attribute);
    let n = members::member_attribute(s, p).seen;
    crate::nesting::members::lemma_attribute_kind_nested(s, p);
    lemma_agree_less(s, t, n, members::attribute_kind(s, p).seen);
    crate::locality::members::lemma_attribute_kind_local(s, t, p);
    let a = members::attribute_kind(s, p);
    if a.ok {
        lemma_agree_length(s, t, n, a.end);
        lemma_trivia_nested(s, a.end);
        lemma_agree_less(s, t, n, trivia(s, a.end).seen);
        lemma_trivia_local(s, t, a.end);
    }
    crate::nesting::forest::lemma_join_nested(s, p, a, trivia(s, a.end));
    let b = join(a, trivia(s, a.end));
    if b.ok {
        lemma_agree_length(s, t, n, b.end);
        crate::nesting::members::lemma_attribute_name_nested(s, b.end);
        lemma_agree_less(s, t, n, members::attribute_name(s, b.end).seen);
        crate::locality::members::lemma_attribute_name_local(s, t, b.end);
    }
    crate::nesting::forest::lemma_join_nested(s, p, b, members::attribute_name(s, b.end));
    let c = join(b, members::attribute_name(s, b.end));
    if c.ok {
        lemma_agree_length(s, t, n, c.end);
        crate::nesting::members::lemma_spaced_ivar_clause_nested(s, c.end);
        lemma_agree_less(s, t, n, members::spaced_ivar_clause(s, c.end).seen);
        crate::locality::members::lemma_spaced_ivar_clause_local(s, t, c.end);
    }
    crate::nesting::forest::lemma_join_nested(
        s,
        p,
        c,
        opt(c.end, members::spaced_ivar_clause(s, c.end)),
    );
    let d = join(c, opt(c.end, members::spaced_ivar_clause(s, c.end)));
    if d.ok {
        lemma_agree_length(s, t, n, d.end);
        lemma_trivia_nested(s, d.end);
        lemma_agree_less(s, t, n, trivia(s, d.end).seen);
        lemma_trivia_local(s, t, d.end);
    }
    crate::nesting::forest::lemma_join_nested(s, p, d, trivia(s, d.end));
    let e = join(d, trivia(s, d.end));
    if e.ok {
        lemma_agree_length(s, t, n, e.end);
        lemma_byte_nested(s, e.end, COLON);
        lemma_agree_less(s, t, n, byte(s, e.end, COLON).seen);
        lemma_byte_local(s, t, e.end, COLON);
    }
    crate::nesting::forest::lemma_join_nested(s, p, e, byte(s, e.end, COLON));
    let f = join(e, byte(s, e.end, COLON));
    if f.ok {
        lemma_agree_length(s, t, n, f.end);
        lemma_trivia_nested(s, f.end);
        lemma_agree_less(s, t, n, trivia(s, f.end).seen);
        lemma_trivia_local(s, t, f.end);
    }
    crate::nesting::forest::lemma_join_nested(s, p, f, trivia(s, f.end));
    let g = join(f, trivia(s, f.end));
    if g.ok {
        lemma_agree_length(s, t, n, g.end);
        crate::nesting::types::lemma_type_expr_nested(s, g.end);
        lemma_agree_less(s, t, n, types::type_expr(s, g.end).seen);
        crate::locality::types::lemma_type_expr_local(s, t, g.end);
    }
    crate::nesting::forest::lemma_join_nested(s, p, g, types::type_expr(s, g.end));
    let h = join(g, types::type_expr(s, g.end));
}

/// `mixin_target` does the same on two inputs that agree in what it looked at.
pub proof fn lemma_mixin_target_local(s: Seq<u8>, t: Seq<u8>, p: int)
    requires
        0 <= p <= s.len(),
        agree(s, t, members::mixin_target(s, p).seen),
    ensures
        members::mixin_target(t, p) == members::mixin_target(s, p),
{
    reveal(members::mixin_target);
    let n = members::mixin_target(s, p).seen;
    crate::nesting::types::lemma_type_interface_name_nested(s, p);
    lemma_agree_less(s, t, n, types::type_interface_name(s, p).seen);
    crate::locality::types::lemma_type_interface_name_local(s, t, p);
    if !types::type_interface_name(s, p).ok {
        crate::nesting::types::lemma_type_class_instance_name_nested(s, p);
        lemma_agree_less(s, t, n, types::type_class_instance_name(s, p).seen);
        crate::locality::types::lemma_type_class_instance_name_local(s, t, p);
    }
}

/// `member_include` does the same on two inputs that agree in what it looked at.
pub proof fn lemma_member_include_local(s: Seq<u8>, t: Seq<u8>, p: int)
    requires
        0 <= p <= s.len(),
        agree(s, t, members::member_include(s, p).seen),
    ensures
        members::member_include(t, p) == members::member_include(s, p),
{
    reveal(members::member_include);
    let n = members::member_include(s, p).seen;
    lemma_keyword_nested(s, p, "include".spec_bytes());
    lemma_agree_less(s, t, n, keyword(s, p, "include".spec_bytes()).seen);
    lemma_keyword_local(s, t, p, "include".spec_bytes());
    let a = keyword(s, p, "include".spec_bytes());
    if a.ok {
        lemma_agree_length(s, t, n, a.end);
        lemma_trivia_nested(s, a.end);
        lemma_agree_less(s, t, n, trivia(s, a.end).seen);
        lemma_trivia_local(s, t, a.end);
    }
    crate::nesting::forest::lemma_join_nested(s, p, a, trivia(s, a.end));
    let b = join(a, trivia(s, a.end));
    if b.ok {
        lemma_agree_length(s, t, n, b.end);
        crate::nesting::members::lemma_mixin_target_nested(s, b.end);
        lemma_agree_less(s, t, n, members::mixin_target(s, b.end).seen);
        crate::locality::members::lemma_mixin_target_local(s, t, b.end);
    }
    crate::nesting::forest::lemma_join_nested(s, p, b, members::mixin_target(s, b.end));
    let c = join(b, members::mixin_target(s, b.end));
}

/// `member_extend` does the same on two inputs that agree in what it looked at.
pub proof fn lemma_member_extend_local(s: Seq<u8>, t: Seq<u8>, p: int)
    requires
        0 <= p <= s.len(),
        agree(s, t, members::member_extend(s, p).seen),
    ensures
        members::member_extend(t, p) == members::member_extend(s, p),
{
    reveal(members::member_extend);
    let n = members::member_extend(s, p).seen;
    lemma_keyword_nested(s, p, "extend".spec_bytes());
    lemma_agree_less(s, t, n, keyword(s, p, "extend".spec_bytes()).seen);
    lemma_keyword_local(s, t, p, "extend".spec_bytes());
    let a = keyword(s, p, "extend".spec_bytes());
    if a.ok {
        lemma_agree_length(s, t, n, a.end);
        lemma_trivia_nested(s, a.end);
        lemma_agree_less(s, t, n, trivia(s, a.end).seen);
        lemma_trivia_local(s, t, a.end);
    }
    crate::nesting::forest::lemma_join_nested(s, p, a, trivia(s, a.end));
    let b = join(a, trivia(s, a.end));
    if b.ok {
        lemma_agree_length(s, t, n, b.end);
        crate::nesting::members::lemma_mixin_target_nested(s, b.end);
        lemma_agree_less(s, t, n, members::mixin_target(s, b.end).seen);
        crate::locality::members::lemma_mixin_target_local(s, t, b.end);
    }
    crate::nesting::forest::lemma_join_nested(s, p, b, members::mixin_target(s, b.end));
    let c = join(b, members::mixin_target(s, b.end));
}

/// `member` does the same on two inputs that agree in what it looked at.
pub proof fn lemma_member_local(s: Seq<u8>, t: Seq<u8>, p: int)
    requires
        0 <= p <= s.len(),
        agree(s, t, members::member(s, p).seen),
    ensures
        members::member(t, p) == members::member(s, p),
{
    reveal(members::member);
    let n = members::member(s, p).seen;
    crate::nesting::members::lemma_member_method_nested(s, p);
    lemma_agree_less(s, t, n, members::member_method(s, p).seen);
    crate::locality::members::lemma_member_method_local(s, t, p);
    if !members::member_method(s, p).ok {
        crate::nesting::members::lemma_member_alias_nested(s, p);
        lemma_agree_less(s, t, n, members::member_alias(s, p).seen);
        crate::locality::members::lemma_member_alias_local(s, t, p);
        if !members::member_alias(s, p).ok {
            crate::nesting::members::lemma_member_attribute_nested(s, p);
            lemma_agree_less(s, t, n, members::member_attribute(s, p).seen);
            crate::locality::members::lemma_member_attribute_local(s, t, p);
            if !members::member_attribute(s, p).ok {
                crate::nesting::members::lemma_member_include_nested(s, p);
                lemma_agree_less(s, t, n, members::member_include(s, p).seen);
                crate::locality::members::lemma_member_include_local(s, t, p);
                if !members::member_include(s, p).ok {
                    crate::nesting::members::lemma_member_extend_nested(s, p);
                    lemma_agree_less(s, t, n, members::member_extend(s, p).seen);
                    crate::locality::members::lemma_member_extend_local(s, t, p);
                }
            }
        }
    }
}

} // verus!
