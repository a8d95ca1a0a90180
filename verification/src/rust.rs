use vstd::prelude::*;
use crate::peg::{Pat, PatV, Quant, Rule, RuleV, pats_view, rules_view};
use vstd::string::StringSliceAdditionalSpecFns;

verus! {

pub open spec fn lit_v(s: &str) -> PatV {
    PatV::Lit(s.spec_bytes())
}

pub open spec fn name_v(s: &str) -> PatV {
    PatV::Name(s@)
}

pub open spec fn cat_v(parts: Seq<PatV>) -> PatV {
    PatV::Cat(parts)
}

pub open spec fn alt_v(parts: Seq<PatV>) -> PatV {
    PatV::Alt(parts)
}

pub open spec fn opt_v(inner: PatV) -> PatV {
    PatV::Rep(Box::new(inner), Quant::Opt)
}

pub open spec fn star_v(inner: PatV) -> PatV {
    PatV::Rep(Box::new(inner), Quant::Star)
}

pub open spec fn plus_v(inner: PatV) -> PatV {
    PatV::Rep(Box::new(inner), Quant::Plus)
}

pub open spec fn not_v(inner: PatV) -> PatV {
    PatV::Not(Box::new(inner))
}

pub open spec fn class_v(ranges: Seq<(u8, u8)>, negated: bool) -> PatV {
    PatV::Class(ranges, negated)
}

pub open spec fn rule_v(name: &str, tag: Option<&str>, pat: PatV) -> RuleV {
    RuleV {
        name: name@,
        tag: match tag {
            Some(t) => Some(t@),
            None => None,
        },
        pat,
    }
}

#[verifier::opaque]
pub open spec fn lexer_ws_pat_v() -> PatV {
    plus_v(class_v(seq![(0x20u8, 0x20u8), (0x09u8, 0x09u8), (0x0du8, 0x0du8), (0x0au8, 0x0au8)], false))
}

pub open spec fn lexer_ws_v() -> RuleV {
    rule_v("WS", Some("skip"), lexer_ws_pat_v())
}

#[verifier::opaque]
pub open spec fn lexer_line_pat_v() -> PatV {
    cat_v(seq![lit_v("//"), star_v(cat_v(seq![not_v(lit_v("\n")), PatV::Any]))])
}

pub open spec fn lexer_line_v() -> RuleV {
    rule_v("LINE", Some("comment"), lexer_line_pat_v())
}

#[verifier::opaque]
pub open spec fn lexer_block_pat_v() -> PatV {
    cat_v(seq![
        lit_v("/*"),
        star_v(cat_v(seq![not_v(lit_v("*/")), PatV::Any])),
        lit_v("*/"),
    ])
}

pub open spec fn lexer_block_v() -> RuleV {
    rule_v("BLOCK", Some("comment"), lexer_block_pat_v())
}

#[verifier::opaque]
pub open spec fn lexer_ident_pat_v() -> PatV {
    cat_v(seq![
        class_v(seq![(0x61u8, 0x7au8), (0x41u8, 0x5au8), (0x5fu8, 0x5fu8), (0x80u8, 0xffu8)], false),
        star_v(class_v(seq![(0x61u8, 0x7au8), (0x41u8, 0x5au8), (0x5fu8, 0x5fu8), (0x30u8, 0x39u8), (0x80u8, 0xffu8)], false)),
    ])
}

pub open spec fn lexer_ident_v() -> RuleV {
    rule_v("IDENT", None, lexer_ident_pat_v())
}

#[verifier::opaque]
pub open spec fn lexer_lifetime_pat_v() -> PatV {
    cat_v(seq![
        lit_v("'"),
        class_v(seq![(0x61u8, 0x7au8), (0x41u8, 0x5au8), (0x5fu8, 0x5fu8)], false),
        star_v(class_v(seq![(0x61u8, 0x7au8), (0x41u8, 0x5au8), (0x5fu8, 0x5fu8), (0x30u8, 0x39u8)], false)),
    ])
}

pub open spec fn lexer_lifetime_v() -> RuleV {
    rule_v("LIFETIME", None, lexer_lifetime_pat_v())
}

#[verifier::opaque]
pub open spec fn lexer_char_pat_v() -> PatV {
    cat_v(seq![
        opt_v(lit_v("b")),
        lit_v("'"),
        alt_v(seq![
            cat_v(seq![
                lit_v("\\"),
                PatV::Any,
                star_v(cat_v(seq![not_v(lit_v("'")), PatV::Any])),
            ]),
            cat_v(seq![
                cat_v(seq![not_v(lit_v("'")), PatV::Any]),
                star_v(class_v(seq![(0x80u8, 0xbfu8)], false)),
            ]),
        ]),
        lit_v("'"),
    ])
}

pub open spec fn lexer_char_v() -> RuleV {
    rule_v("CHAR", None, lexer_char_pat_v())
}

#[verifier::opaque]
pub open spec fn lexer_string_pat_v() -> PatV {
    cat_v(seq![
        opt_v(lit_v("b")),
        lit_v("\""),
        star_v(alt_v(seq![
            cat_v(seq![lit_v("\\"), PatV::Any]),
            cat_v(seq![not_v(lit_v("\"")), PatV::Any]),
        ])),
        lit_v("\""),
    ])
}

pub open spec fn lexer_string_v() -> RuleV {
    rule_v("STRING", None, lexer_string_pat_v())
}

#[verifier::opaque]
pub open spec fn lexer_raw_pat_v() -> PatV {
    cat_v(seq![
        opt_v(lit_v("b")),
        lit_v("r"),
        alt_v(seq![
            cat_v(seq![
                lit_v("#\""),
                star_v(cat_v(seq![not_v(lit_v("\"#")), PatV::Any])),
                lit_v("\"#"),
            ]),
            cat_v(seq![
                lit_v("\""),
                star_v(cat_v(seq![not_v(lit_v("\"")), PatV::Any])),
                lit_v("\""),
            ]),
        ]),
    ])
}

pub open spec fn lexer_raw_v() -> RuleV {
    rule_v("RAW", None, lexer_raw_pat_v())
}

#[verifier::opaque]
pub open spec fn lexer_number_pat_v() -> PatV {
    cat_v(seq![
        class_v(seq![(0x30u8, 0x39u8)], false),
        star_v(class_v(seq![(0x61u8, 0x7au8), (0x41u8, 0x5au8), (0x5fu8, 0x5fu8), (0x30u8, 0x39u8)], false)),
        opt_v(cat_v(seq![
            lit_v("."),
            class_v(seq![(0x30u8, 0x39u8)], false),
            star_v(class_v(seq![(0x61u8, 0x7au8), (0x41u8, 0x5au8), (0x5fu8, 0x5fu8), (0x30u8, 0x39u8)], false)),
        ])),
    ])
}

pub open spec fn lexer_number_v() -> RuleV {
    rule_v("NUMBER", None, lexer_number_pat_v())
}

#[verifier::opaque]
pub open spec fn lexer_punct_pat_v() -> PatV {
    class_v(seq![(0x21u8, 0x21u8), (0x23u8, 0x26u8), (0x28u8, 0x2fu8), (0x3au8, 0x40u8), (0x5bu8, 0x5bu8), (0x5du8, 0x5eu8), (0x7bu8, 0x7eu8)], false)
}

pub open spec fn lexer_punct_v() -> RuleV {
    rule_v("PUNCT", None, lexer_punct_pat_v())
}

#[verifier::opaque]
pub open spec fn parser_keyword_pat_v() -> PatV {
    alt_v(seq![
        lit_v("let"),
        lit_v("if"),
        lit_v("else"),
        lit_v("for"),
        lit_v("while"),
        lit_v("loop"),
        lit_v("match"),
        lit_v("fn"),
        lit_v("struct"),
        lit_v("enum"),
        lit_v("impl"),
        lit_v("trait"),
        lit_v("mod"),
        lit_v("use"),
        lit_v("pub"),
        lit_v("const"),
        lit_v("static"),
        lit_v("type"),
        lit_v("where"),
        lit_v("unsafe"),
        lit_v("async"),
        lit_v("move"),
        lit_v("in"),
        lit_v("extern"),
        lit_v("dyn"),
    ])
}

pub open spec fn parser_keyword_v() -> RuleV {
    rule_v("keyword", None, parser_keyword_pat_v())
}

#[verifier::opaque]
pub open spec fn parser_unit_pat_v() -> PatV {
    alt_v(seq![name_v("item"), name_v("attr")])
}

pub open spec fn parser_unit_v() -> RuleV {
    rule_v("unit", None, parser_unit_pat_v())
}

#[verifier::opaque]
pub open spec fn parser_tt_pat_v() -> PatV {
    alt_v(seq![
        cat_v(seq![lit_v("("), star_v(name_v("tt")), lit_v(")")]),
        cat_v(seq![lit_v("["), star_v(name_v("tt")), lit_v("]")]),
        cat_v(seq![lit_v("{"), star_v(name_v("tt")), lit_v("}")]),
        cat_v(seq![not_v(alt_v(seq![lit_v(")"), lit_v("]"), lit_v("}")])), PatV::Any]),
    ])
}

pub open spec fn parser_tt_v() -> RuleV {
    rule_v("tt", None, parser_tt_pat_v())
}

#[verifier::opaque]
pub open spec fn parser_gtt_pat_v() -> PatV {
    alt_v(seq![
        cat_v(seq![lit_v("-"), lit_v(">")]),
        cat_v(seq![lit_v("<"), star_v(name_v("gtt")), lit_v(">")]),
        cat_v(seq![lit_v("("), star_v(name_v("tt")), lit_v(")")]),
        cat_v(seq![lit_v("["), star_v(name_v("tt")), lit_v("]")]),
        cat_v(seq![
            not_v(alt_v(seq![
                lit_v(">"),
                lit_v("{"),
                lit_v("}"),
                lit_v(";"),
                lit_v(")"),
                lit_v("]"),
            ])),
            PatV::Any,
        ]),
    ])
}

pub open spec fn parser_gtt_v() -> RuleV {
    rule_v("gtt", None, parser_gtt_pat_v())
}

#[verifier::opaque]
pub open spec fn parser_attr_pat_v() -> PatV {
    cat_v(seq![
        lit_v("#"),
        opt_v(lit_v("!")),
        lit_v("["),
        star_v(name_v("tt")),
        lit_v("]"),
    ])
}

pub open spec fn parser_attr_v() -> RuleV {
    rule_v("attr", None, parser_attr_pat_v())
}

#[verifier::opaque]
pub open spec fn parser_vis_pat_v() -> PatV {
    cat_v(seq![
        lit_v("pub"),
        opt_v(cat_v(seq![lit_v("("), star_v(name_v("tt")), lit_v(")")])),
    ])
}

pub open spec fn parser_vis_v() -> RuleV {
    rule_v("vis", None, parser_vis_pat_v())
}

#[verifier::opaque]
pub open spec fn parser_item_pat_v() -> PatV {
    cat_v(seq![
        star_v(name_v("attr")),
        opt_v(name_v("vis")),
        alt_v(seq![
            name_v("func"),
            name_v("strukt"),
            name_v("enumer"),
            name_v("trait"),
            name_v("imp"),
            name_v("uses"),
            name_v("module"),
            name_v("konst"),
            name_v("alias"),
            name_v("mac"),
            name_v("ext"),
        ]),
    ])
}

pub open spec fn parser_item_v() -> RuleV {
    rule_v("item", Some("item"), parser_item_pat_v())
}

#[verifier::opaque]
pub open spec fn parser_name_pat_v() -> PatV {
    cat_v(seq![not_v(name_v("keyword")), name_v("IDENT")])
}

pub open spec fn parser_name_v() -> RuleV {
    rule_v("name", Some("word"), parser_name_pat_v())
}

#[verifier::opaque]
pub open spec fn parser_generics_pat_v() -> PatV {
    cat_v(seq![lit_v("<"), star_v(name_v("gtt")), lit_v(">")])
}

pub open spec fn parser_generics_v() -> RuleV {
    rule_v("generics", None, parser_generics_pat_v())
}

#[verifier::opaque]
pub open spec fn parser_qual_pat_v() -> PatV {
    alt_v(seq![
        lit_v("const"),
        lit_v("async"),
        lit_v("unsafe"),
        cat_v(seq![lit_v("extern"), opt_v(name_v("STRING"))]),
    ])
}

pub open spec fn parser_qual_v() -> RuleV {
    rule_v("qual", None, parser_qual_pat_v())
}

#[verifier::opaque]
pub open spec fn parser_func_pat_v() -> PatV {
    cat_v(seq![
        star_v(name_v("qual")),
        lit_v("fn"),
        name_v("name"),
        opt_v(name_v("generics")),
        lit_v("("),
        opt_v(cat_v(seq![
            name_v("param"),
            star_v(cat_v(seq![lit_v(","), name_v("param")])),
            opt_v(lit_v(",")),
        ])),
        lit_v(")"),
        opt_v(cat_v(seq![cat_v(seq![lit_v("-"), lit_v(">")]), name_v("type")])),
        opt_v(name_v("where")),
        alt_v(seq![name_v("body"), lit_v(";")]),
    ])
}

pub open spec fn parser_func_v() -> RuleV {
    rule_v("func", None, parser_func_pat_v())
}

#[verifier::opaque]
pub open spec fn parser_param_pat_v() -> PatV {
    alt_v(seq![
        cat_v(seq![
            star_v(name_v("attr")),
            opt_v(lit_v("&")),
            opt_v(name_v("LIFETIME")),
            opt_v(lit_v("mut")),
            lit_v("self"),
            opt_v(cat_v(seq![lit_v(":"), name_v("type")])),
        ]),
        cat_v(seq![star_v(name_v("attr")), name_v("pat"), lit_v(":"), name_v("type")]),
    ])
}

pub open spec fn parser_param_v() -> RuleV {
    rule_v("param", None, parser_param_pat_v())
}

#[verifier::opaque]
pub open spec fn parser_type_pat_v() -> PatV {
    plus_v(name_v("tyatom"))
}

pub open spec fn parser_type_v() -> RuleV {
    rule_v("type", None, parser_type_pat_v())
}

#[verifier::opaque]
pub open spec fn parser_tyatom_pat_v() -> PatV {
    alt_v(seq![
        cat_v(seq![lit_v("-"), lit_v(">")]),
        cat_v(seq![lit_v(":"), lit_v(":")]),
        cat_v(seq![lit_v("<"), star_v(name_v("gtt")), lit_v(">")]),
        cat_v(seq![lit_v("("), star_v(name_v("tt")), lit_v(")")]),
        cat_v(seq![lit_v("["), star_v(name_v("tt")), lit_v("]")]),
        cat_v(seq![not_v(alt_v(seq![lit_v("for"), lit_v("where")])), name_v("IDENT")]),
        name_v("LIFETIME"),
        lit_v("&"),
        lit_v("*"),
        lit_v("!"),
        lit_v("+"),
        lit_v("?"),
    ])
}

pub open spec fn parser_tyatom_v() -> RuleV {
    rule_v("tyatom", None, parser_tyatom_pat_v())
}

#[verifier::opaque]
pub open spec fn parser_where_pat_v() -> PatV {
    cat_v(seq![
        lit_v("where"),
        star_v(alt_v(seq![
            cat_v(seq![lit_v("<"), star_v(name_v("gtt")), lit_v(">")]),
            cat_v(seq![lit_v("("), star_v(name_v("tt")), lit_v(")")]),
            cat_v(seq![lit_v("["), star_v(name_v("tt")), lit_v("]")]),
            cat_v(seq![
                not_v(alt_v(seq![lit_v("{"), lit_v(";"), lit_v("}")])),
                PatV::Any,
            ]),
        ])),
    ])
}

pub open spec fn parser_where_v() -> RuleV {
    rule_v("where", None, parser_where_pat_v())
}

#[verifier::opaque]
pub open spec fn parser_body_pat_v() -> PatV {
    cat_v(seq![lit_v("{"), star_v(name_v("stmt")), lit_v("}")])
}

pub open spec fn parser_body_v() -> RuleV {
    rule_v("body", Some("scope"), parser_body_pat_v())
}

#[verifier::opaque]
pub open spec fn parser_block_pat_v() -> PatV {
    cat_v(seq![lit_v("{"), star_v(name_v("stmt")), lit_v("}")])
}

pub open spec fn parser_block_v() -> RuleV {
    rule_v("block", Some("scope"), parser_block_pat_v())
}

#[verifier::opaque]
pub open spec fn parser_stmt_pat_v() -> PatV {
    alt_v(seq![
        lit_v(";"),
        name_v("binding"),
        name_v("item"),
        cat_v(seq![
            name_v("blocky"),
            not_v(alt_v(seq![lit_v("."), lit_v("?")])),
            opt_v(lit_v(";")),
        ]),
        cat_v(seq![name_v("expr"), opt_v(lit_v(";"))]),
    ])
}

pub open spec fn parser_stmt_v() -> RuleV {
    rule_v("stmt", None, parser_stmt_pat_v())
}

#[verifier::opaque]
pub open spec fn parser_binding_pat_v() -> PatV {
    cat_v(seq![
        lit_v("let"),
        name_v("pat"),
        opt_v(cat_v(seq![lit_v(":"), name_v("type")])),
        opt_v(cat_v(seq![lit_v("="), name_v("expr")])),
        opt_v(cat_v(seq![lit_v("else"), name_v("block")])),
        lit_v(";"),
    ])
}

pub open spec fn parser_binding_v() -> RuleV {
    rule_v("binding", None, parser_binding_pat_v())
}

#[verifier::opaque]
pub open spec fn parser_path_pat_v() -> PatV {
    cat_v(seq![
        opt_v(cat_v(seq![lit_v(":"), lit_v(":")])),
        cat_v(seq![not_v(name_v("keyword")), name_v("IDENT")]),
        star_v(cat_v(seq![
            cat_v(seq![lit_v(":"), lit_v(":")]),
            alt_v(seq![
                cat_v(seq![not_v(name_v("keyword")), name_v("IDENT")]),
                cat_v(seq![lit_v("<"), star_v(name_v("gtt")), lit_v(">")]),
            ]),
        ])),
    ])
}

pub open spec fn parser_path_v() -> RuleV {
    rule_v("path", None, parser_path_pat_v())
}

#[verifier::opaque]
pub open spec fn parser_qpath_pat_v() -> PatV {
    cat_v(seq![
        cat_v(seq![not_v(name_v("keyword")), name_v("IDENT")]),
        plus_v(cat_v(seq![
            cat_v(seq![lit_v(":"), lit_v(":")]),
            alt_v(seq![
                cat_v(seq![not_v(name_v("keyword")), name_v("IDENT")]),
                cat_v(seq![lit_v("<"), star_v(name_v("gtt")), lit_v(">")]),
            ]),
        ])),
    ])
}

pub open spec fn parser_qpath_v() -> RuleV {
    rule_v("qpath", None, parser_qpath_pat_v())
}

#[verifier::opaque]
pub open spec fn parser_pat_pat_v() -> PatV {
    cat_v(seq![
        opt_v(lit_v("|")),
        name_v("pat1"),
        star_v(cat_v(seq![lit_v("|"), name_v("pat1")])),
    ])
}

pub open spec fn parser_pat_v() -> RuleV {
    rule_v("pat", None, parser_pat_pat_v())
}

#[verifier::opaque]
pub open spec fn parser_pat1_pat_v() -> PatV {
    alt_v(seq![
        cat_v(seq![lit_v("&"), opt_v(lit_v("mut")), name_v("pat1")]),
        cat_v(seq![
            lit_v("("),
            opt_v(cat_v(seq![
                name_v("pat"),
                star_v(cat_v(seq![lit_v(","), name_v("pat")])),
                opt_v(lit_v(",")),
            ])),
            lit_v(")"),
        ]),
        cat_v(seq![
            lit_v("["),
            opt_v(cat_v(seq![
                name_v("pat"),
                star_v(cat_v(seq![lit_v(","), name_v("pat")])),
                opt_v(lit_v(",")),
            ])),
            lit_v("]"),
        ]),
        cat_v(seq![
            name_v("path"),
            lit_v("("),
            opt_v(cat_v(seq![
                name_v("pat"),
                star_v(cat_v(seq![lit_v(","), name_v("pat")])),
                opt_v(lit_v(",")),
            ])),
            lit_v(")"),
        ]),
        name_v("spat"),
        cat_v(seq![lit_v("."), lit_v(".")]),
        cat_v(seq![
            alt_v(seq![
                name_v("NUMBER"),
                name_v("STRING"),
                name_v("CHAR"),
                cat_v(seq![lit_v("-"), name_v("NUMBER")]),
            ]),
            opt_v(cat_v(seq![
                cat_v(seq![lit_v("."), lit_v(".")]),
                opt_v(lit_v("=")),
                opt_v(alt_v(seq![name_v("NUMBER"), name_v("CHAR")])),
            ])),
        ]),
        name_v("qpath"),
        cat_v(seq![
            opt_v(lit_v("ref")),
            opt_v(lit_v("mut")),
            name_v("name"),
            opt_v(cat_v(seq![lit_v("@"), name_v("pat1")])),
        ]),
    ])
}

pub open spec fn parser_pat1_v() -> RuleV {
    rule_v("pat1", None, parser_pat1_pat_v())
}

#[verifier::opaque]
pub open spec fn parser_spat_pat_v() -> PatV {
    cat_v(seq![
        name_v("path"),
        lit_v("{"),
        opt_v(cat_v(seq![
            alt_v(seq![
                cat_v(seq![lit_v("."), lit_v(".")]),
                cat_v(seq![
                    opt_v(lit_v("ref")),
                    opt_v(lit_v("mut")),
                    name_v("IDENT"),
                    opt_v(cat_v(seq![lit_v(":"), name_v("pat")])),
                ]),
            ]),
            star_v(cat_v(seq![
                lit_v(","),
                alt_v(seq![
                    cat_v(seq![lit_v("."), lit_v(".")]),
                    cat_v(seq![
                        opt_v(lit_v("ref")),
                        opt_v(lit_v("mut")),
                        name_v("IDENT"),
                        opt_v(cat_v(seq![lit_v(":"), name_v("pat")])),
                    ]),
                ]),
            ])),
            opt_v(lit_v(",")),
        ])),
        lit_v("}"),
    ])
}

pub open spec fn parser_spat_v() -> RuleV {
    rule_v("spat", Some("literal"), parser_spat_pat_v())
}

#[verifier::opaque]
pub open spec fn parser_blocky_pat_v() -> PatV {
    cat_v(seq![
        opt_v(cat_v(seq![name_v("LIFETIME"), lit_v(":")])),
        alt_v(seq![
            name_v("ifx"),
            name_v("whilex"),
            name_v("forx"),
            cat_v(seq![lit_v("loop"), name_v("block")]),
            name_v("matchx"),
            cat_v(seq![lit_v("unsafe"), name_v("block")]),
            cat_v(seq![lit_v("async"), opt_v(lit_v("move")), name_v("block")]),
            name_v("block"),
        ]),
    ])
}

pub open spec fn parser_blocky_v() -> RuleV {
    rule_v("blocky", None, parser_blocky_pat_v())
}

#[verifier::opaque]
pub open spec fn parser_cond_pat_v() -> PatV {
    alt_v(seq![
        cat_v(seq![lit_v("let"), name_v("pat"), lit_v("="), plus_v(name_v("catom"))]),
        plus_v(name_v("catom")),
    ])
}

pub open spec fn parser_cond_v() -> RuleV {
    rule_v("cond", None, parser_cond_pat_v())
}

#[verifier::opaque]
pub open spec fn parser_ifx_pat_v() -> PatV {
    cat_v(seq![
        lit_v("if"),
        name_v("cond"),
        name_v("block"),
        opt_v(cat_v(seq![lit_v("else"), alt_v(seq![name_v("ifx"), name_v("block")])])),
    ])
}

pub open spec fn parser_ifx_v() -> RuleV {
    rule_v("ifx", None, parser_ifx_pat_v())
}

#[verifier::opaque]
pub open spec fn parser_whilex_pat_v() -> PatV {
    cat_v(seq![lit_v("while"), name_v("cond"), name_v("block")])
}

pub open spec fn parser_whilex_v() -> RuleV {
    rule_v("whilex", None, parser_whilex_pat_v())
}

#[verifier::opaque]
pub open spec fn parser_forx_pat_v() -> PatV {
    cat_v(seq![
        lit_v("for"),
        name_v("pat"),
        lit_v("in"),
        name_v("cond"),
        name_v("block"),
    ])
}

pub open spec fn parser_forx_v() -> RuleV {
    rule_v("forx", None, parser_forx_pat_v())
}

#[verifier::opaque]
pub open spec fn parser_matchx_pat_v() -> PatV {
    cat_v(seq![
        lit_v("match"),
        name_v("cond"),
        lit_v("{"),
        star_v(name_v("arm")),
        lit_v("}"),
    ])
}

pub open spec fn parser_matchx_v() -> RuleV {
    rule_v("matchx", None, parser_matchx_pat_v())
}

#[verifier::opaque]
pub open spec fn parser_arm_pat_v() -> PatV {
    cat_v(seq![
        star_v(name_v("attr")),
        name_v("pat"),
        opt_v(cat_v(seq![lit_v("if"), name_v("expr")])),
        cat_v(seq![lit_v("="), lit_v(">")]),
        alt_v(seq![
            cat_v(seq![name_v("block"), opt_v(lit_v(","))]),
            cat_v(seq![
                name_v("expr"),
                alt_v(seq![
                    lit_v(","),
                    cat_v(seq![not_v(lit_v("}")), not_v(PatV::Any)]),
                    not_v(not_v(lit_v("}"))),
                ]),
            ]),
        ]),
    ])
}

pub open spec fn parser_arm_v() -> RuleV {
    rule_v("arm", None, parser_arm_pat_v())
}

#[verifier::opaque]
pub open spec fn parser_closure_pat_v() -> PatV {
    cat_v(seq![
        opt_v(lit_v("move")),
        alt_v(seq![
            cat_v(seq![lit_v("|"), lit_v("|")]),
            cat_v(seq![
                lit_v("|"),
                opt_v(cat_v(seq![
                    cat_v(seq![
                        name_v("pat"),
                        opt_v(cat_v(seq![lit_v(":"), name_v("type")])),
                    ]),
                    star_v(cat_v(seq![
                        lit_v(","),
                        cat_v(seq![
                            name_v("pat"),
                            opt_v(cat_v(seq![lit_v(":"), name_v("type")])),
                        ]),
                    ])),
                    opt_v(lit_v(",")),
                ])),
                lit_v("|"),
            ]),
        ]),
        opt_v(cat_v(seq![cat_v(seq![lit_v("-"), lit_v(">")]), name_v("type")])),
        alt_v(seq![name_v("block"), name_v("expr")]),
    ])
}

pub open spec fn parser_closure_v() -> RuleV {
    rule_v("closure", None, parser_closure_pat_v())
}

#[verifier::opaque]
pub open spec fn parser_expr_pat_v() -> PatV {
    alt_v(seq![name_v("closure"), plus_v(name_v("atom"))])
}

pub open spec fn parser_expr_v() -> RuleV {
    rule_v("expr", None, parser_expr_pat_v())
}

#[verifier::opaque]
pub open spec fn parser_group_pat_v() -> PatV {
    alt_v(seq![
        cat_v(seq![
            lit_v("("),
            opt_v(cat_v(seq![
                name_v("expr"),
                star_v(cat_v(seq![lit_v(","), name_v("expr")])),
                opt_v(lit_v(",")),
            ])),
            lit_v(")"),
        ]),
        cat_v(seq![
            lit_v("["),
            opt_v(cat_v(seq![
                name_v("expr"),
                star_v(cat_v(seq![lit_v(","), name_v("expr")])),
                opt_v(lit_v(",")),
            ])),
            opt_v(cat_v(seq![lit_v(";"), name_v("expr")])),
            lit_v("]"),
        ]),
    ])
}

pub open spec fn parser_group_v() -> RuleV {
    rule_v("group", None, parser_group_pat_v())
}

#[verifier::opaque]
pub open spec fn parser_mac_pat_v() -> PatV {
    cat_v(seq![
        name_v("path"),
        lit_v("!"),
        opt_v(name_v("IDENT")),
        alt_v(seq![
            cat_v(seq![
                alt_v(seq![
                    cat_v(seq![lit_v("("), star_v(name_v("tt")), lit_v(")")]),
                    cat_v(seq![lit_v("["), star_v(name_v("tt")), lit_v("]")]),
                ]),
                opt_v(lit_v(";")),
            ]),
            cat_v(seq![lit_v("{"), star_v(name_v("tt")), lit_v("}")]),
        ]),
    ])
}

pub open spec fn parser_mac_v() -> RuleV {
    rule_v("mac", None, parser_mac_pat_v())
}

#[verifier::opaque]
pub open spec fn parser_macx_pat_v() -> PatV {
    cat_v(seq![
        name_v("path"),
        lit_v("!"),
        alt_v(seq![
            cat_v(seq![lit_v("("), star_v(name_v("tt")), lit_v(")")]),
            cat_v(seq![lit_v("["), star_v(name_v("tt")), lit_v("]")]),
            cat_v(seq![lit_v("{"), star_v(name_v("tt")), lit_v("}")]),
        ]),
    ])
}

pub open spec fn parser_macx_v() -> RuleV {
    rule_v("macx", None, parser_macx_pat_v())
}

#[verifier::opaque]
pub open spec fn parser_slit_pat_v() -> PatV {
    cat_v(seq![
        name_v("path"),
        lit_v("{"),
        opt_v(cat_v(seq![
            alt_v(seq![
                cat_v(seq![cat_v(seq![lit_v("."), lit_v(".")]), name_v("expr")]),
                cat_v(seq![
                    alt_v(seq![name_v("IDENT"), name_v("NUMBER")]),
                    opt_v(cat_v(seq![lit_v(":"), name_v("expr")])),
                ]),
            ]),
            star_v(cat_v(seq![
                lit_v(","),
                alt_v(seq![
                    cat_v(seq![cat_v(seq![lit_v("."), lit_v(".")]), name_v("expr")]),
                    cat_v(seq![
                        alt_v(seq![name_v("IDENT"), name_v("NUMBER")]),
                        opt_v(cat_v(seq![lit_v(":"), name_v("expr")])),
                    ]),
                ]),
            ])),
            opt_v(lit_v(",")),
        ])),
        lit_v("}"),
    ])
}

pub open spec fn parser_slit_v() -> RuleV {
    rule_v("slit", Some("literal"), parser_slit_pat_v())
}

#[verifier::opaque]
pub open spec fn parser_atom_pat_v() -> PatV {
    alt_v(seq![
        name_v("blocky"),
        name_v("macx"),
        name_v("slit"),
        name_v("path"),
        name_v("group"),
        name_v("NUMBER"),
        name_v("STRING"),
        name_v("RAW"),
        name_v("CHAR"),
        name_v("LIFETIME"),
        lit_v("move"),
        name_v("op"),
    ])
}

pub open spec fn parser_atom_v() -> RuleV {
    rule_v("atom", None, parser_atom_pat_v())
}

#[verifier::opaque]
pub open spec fn parser_catom_pat_v() -> PatV {
    alt_v(seq![
        name_v("macx"),
        name_v("path"),
        name_v("group"),
        name_v("NUMBER"),
        name_v("STRING"),
        name_v("RAW"),
        name_v("CHAR"),
        name_v("LIFETIME"),
        name_v("op"),
        name_v("closure"),
    ])
}

pub open spec fn parser_catom_v() -> RuleV {
    rule_v("catom", None, parser_catom_pat_v())
}

#[verifier::opaque]
pub open spec fn parser_op_pat_v() -> PatV {
    cat_v(seq![
        not_v(alt_v(seq![
            lit_v("{"),
            lit_v("}"),
            lit_v("("),
            lit_v(")"),
            lit_v("["),
            lit_v("]"),
            lit_v(";"),
            lit_v(","),
            cat_v(seq![lit_v("="), lit_v(">")]),
        ])),
        name_v("PUNCT"),
    ])
}

pub open spec fn parser_op_v() -> RuleV {
    rule_v("op", None, parser_op_pat_v())
}

#[verifier::opaque]
pub open spec fn parser_strukt_pat_v() -> PatV {
    cat_v(seq![
        lit_v("struct"),
        name_v("name"),
        opt_v(name_v("generics")),
        opt_v(name_v("where")),
        alt_v(seq![
            cat_v(seq![
                lit_v("{"),
                opt_v(cat_v(seq![
                    name_v("field"),
                    star_v(cat_v(seq![lit_v(","), name_v("field")])),
                    opt_v(lit_v(",")),
                ])),
                lit_v("}"),
            ]),
            cat_v(seq![
                lit_v("("),
                opt_v(cat_v(seq![
                    cat_v(seq![
                        star_v(name_v("attr")),
                        opt_v(name_v("vis")),
                        name_v("type"),
                    ]),
                    star_v(cat_v(seq![
                        lit_v(","),
                        cat_v(seq![
                            star_v(name_v("attr")),
                            opt_v(name_v("vis")),
                            name_v("type"),
                        ]),
                    ])),
                    opt_v(lit_v(",")),
                ])),
                lit_v(")"),
                opt_v(name_v("where")),
                lit_v(";"),
            ]),
            lit_v(";"),
        ]),
    ])
}

pub open spec fn parser_strukt_v() -> RuleV {
    rule_v("strukt", None, parser_strukt_pat_v())
}

#[verifier::opaque]
pub open spec fn parser_field_pat_v() -> PatV {
    cat_v(seq![
        star_v(name_v("attr")),
        opt_v(name_v("vis")),
        name_v("name"),
        lit_v(":"),
        name_v("type"),
    ])
}

pub open spec fn parser_field_v() -> RuleV {
    rule_v("field", None, parser_field_pat_v())
}

#[verifier::opaque]
pub open spec fn parser_enumer_pat_v() -> PatV {
    cat_v(seq![
        lit_v("enum"),
        name_v("name"),
        opt_v(name_v("generics")),
        opt_v(name_v("where")),
        lit_v("{"),
        opt_v(cat_v(seq![
            name_v("variant"),
            star_v(cat_v(seq![lit_v(","), name_v("variant")])),
            opt_v(lit_v(",")),
        ])),
        lit_v("}"),
    ])
}

pub open spec fn parser_enumer_v() -> RuleV {
    rule_v("enumer", None, parser_enumer_pat_v())
}

#[verifier::opaque]
pub open spec fn parser_variant_pat_v() -> PatV {
    cat_v(seq![
        star_v(name_v("attr")),
        name_v("name"),
        opt_v(alt_v(seq![
            cat_v(seq![
                lit_v("{"),
                opt_v(cat_v(seq![
                    name_v("field"),
                    star_v(cat_v(seq![lit_v(","), name_v("field")])),
                    opt_v(lit_v(",")),
                ])),
                lit_v("}"),
            ]),
            cat_v(seq![
                lit_v("("),
                opt_v(cat_v(seq![
                    cat_v(seq![
                        star_v(name_v("attr")),
                        opt_v(name_v("vis")),
                        name_v("type"),
                    ]),
                    star_v(cat_v(seq![
                        lit_v(","),
                        cat_v(seq![
                            star_v(name_v("attr")),
                            opt_v(name_v("vis")),
                            name_v("type"),
                        ]),
                    ])),
                    opt_v(lit_v(",")),
                ])),
                lit_v(")"),
            ]),
        ])),
        opt_v(cat_v(seq![lit_v("="), name_v("expr")])),
    ])
}

pub open spec fn parser_variant_v() -> RuleV {
    rule_v("variant", None, parser_variant_pat_v())
}

#[verifier::opaque]
pub open spec fn parser_trait_pat_v() -> PatV {
    cat_v(seq![
        opt_v(lit_v("unsafe")),
        opt_v(lit_v("auto")),
        lit_v("trait"),
        name_v("name"),
        opt_v(name_v("generics")),
        opt_v(cat_v(seq![lit_v(":"), name_v("type")])),
        opt_v(name_v("where")),
        lit_v("{"),
        star_v(name_v("item")),
        lit_v("}"),
    ])
}

pub open spec fn parser_trait_v() -> RuleV {
    rule_v("trait", None, parser_trait_pat_v())
}

#[verifier::opaque]
pub open spec fn parser_imp_pat_v() -> PatV {
    cat_v(seq![
        opt_v(lit_v("unsafe")),
        lit_v("impl"),
        opt_v(name_v("generics")),
        opt_v(lit_v("!")),
        name_v("type"),
        opt_v(cat_v(seq![lit_v("for"), name_v("type")])),
        opt_v(name_v("where")),
        lit_v("{"),
        star_v(alt_v(seq![name_v("item"), name_v("attr")])),
        lit_v("}"),
    ])
}

pub open spec fn parser_imp_v() -> RuleV {
    rule_v("imp", None, parser_imp_pat_v())
}

#[verifier::opaque]
pub open spec fn parser_uses_pat_v() -> PatV {
    cat_v(seq![lit_v("use"), name_v("utree"), lit_v(";")])
}

pub open spec fn parser_uses_v() -> RuleV {
    rule_v("uses", None, parser_uses_pat_v())
}

#[verifier::opaque]
pub open spec fn parser_utree_pat_v() -> PatV {
    cat_v(seq![
        opt_v(cat_v(seq![lit_v(":"), lit_v(":")])),
        star_v(cat_v(seq![name_v("IDENT"), cat_v(seq![lit_v(":"), lit_v(":")])])),
        alt_v(seq![
            lit_v("*"),
            cat_v(seq![
                lit_v("{"),
                opt_v(cat_v(seq![
                    name_v("utree"),
                    star_v(cat_v(seq![lit_v(","), name_v("utree")])),
                    opt_v(lit_v(",")),
                ])),
                lit_v("}"),
            ]),
            cat_v(seq![
                name_v("IDENT"),
                opt_v(cat_v(seq![lit_v("as"), name_v("IDENT")])),
            ]),
        ]),
    ])
}

pub open spec fn parser_utree_v() -> RuleV {
    rule_v("utree", None, parser_utree_pat_v())
}

#[verifier::opaque]
pub open spec fn parser_module_pat_v() -> PatV {
    cat_v(seq![
        lit_v("mod"),
        name_v("name"),
        alt_v(seq![
            lit_v(";"),
            cat_v(seq![
                lit_v("{"),
                star_v(alt_v(seq![name_v("item"), name_v("attr")])),
                lit_v("}"),
            ]),
        ]),
    ])
}

pub open spec fn parser_module_v() -> RuleV {
    rule_v("module", None, parser_module_pat_v())
}

#[verifier::opaque]
pub open spec fn parser_konst_pat_v() -> PatV {
    cat_v(seq![
        alt_v(seq![lit_v("const"), cat_v(seq![lit_v("static"), opt_v(lit_v("mut"))])]),
        alt_v(seq![name_v("name"), lit_v("_")]),
        lit_v(":"),
        name_v("type"),
        opt_v(cat_v(seq![lit_v("="), name_v("expr")])),
        lit_v(";"),
    ])
}

pub open spec fn parser_konst_v() -> RuleV {
    rule_v("konst", None, parser_konst_pat_v())
}

#[verifier::opaque]
pub open spec fn parser_alias_pat_v() -> PatV {
    cat_v(seq![
        lit_v("type"),
        name_v("name"),
        opt_v(name_v("generics")),
        opt_v(cat_v(seq![lit_v(":"), name_v("type")])),
        opt_v(name_v("where")),
        opt_v(cat_v(seq![lit_v("="), name_v("type")])),
        lit_v(";"),
    ])
}

pub open spec fn parser_alias_v() -> RuleV {
    rule_v("alias", None, parser_alias_pat_v())
}

#[verifier::opaque]
pub open spec fn parser_ext_pat_v() -> PatV {
    alt_v(seq![
        cat_v(seq![
            lit_v("extern"),
            lit_v("crate"),
            name_v("IDENT"),
            opt_v(cat_v(seq![lit_v("as"), name_v("IDENT")])),
            lit_v(";"),
        ]),
        cat_v(seq![
            lit_v("extern"),
            opt_v(name_v("STRING")),
            lit_v("{"),
            star_v(name_v("item")),
            lit_v("}"),
        ]),
    ])
}

pub open spec fn parser_ext_v() -> RuleV {
    rule_v("ext", None, parser_ext_pat_v())
}

/// The grammar, rule by rule.
pub open spec fn rust_grammar() -> Seq<RuleV> {
    Seq::empty()
        .push(lexer_ws_v())
        .push(lexer_line_v())
        .push(lexer_block_v())
        .push(lexer_ident_v())
        .push(lexer_lifetime_v())
        .push(lexer_char_v())
        .push(lexer_string_v())
        .push(lexer_raw_v())
        .push(lexer_number_v())
        .push(lexer_punct_v())
        .push(parser_keyword_v())
        .push(parser_unit_v())
        .push(parser_tt_v())
        .push(parser_gtt_v())
        .push(parser_attr_v())
        .push(parser_vis_v())
        .push(parser_item_v())
        .push(parser_name_v())
        .push(parser_generics_v())
        .push(parser_qual_v())
        .push(parser_func_v())
        .push(parser_param_v())
        .push(parser_type_v())
        .push(parser_tyatom_v())
        .push(parser_where_v())
        .push(parser_body_v())
        .push(parser_block_v())
        .push(parser_stmt_v())
        .push(parser_binding_v())
        .push(parser_path_v())
        .push(parser_qpath_v())
        .push(parser_pat_v())
        .push(parser_pat1_v())
        .push(parser_spat_v())
        .push(parser_blocky_v())
        .push(parser_cond_v())
        .push(parser_ifx_v())
        .push(parser_whilex_v())
        .push(parser_forx_v())
        .push(parser_matchx_v())
        .push(parser_arm_v())
        .push(parser_closure_v())
        .push(parser_expr_v())
        .push(parser_group_v())
        .push(parser_mac_v())
        .push(parser_macx_v())
        .push(parser_slit_v())
        .push(parser_atom_v())
        .push(parser_catom_v())
        .push(parser_op_v())
        .push(parser_strukt_v())
        .push(parser_field_v())
        .push(parser_enumer_v())
        .push(parser_variant_v())
        .push(parser_trait_v())
        .push(parser_imp_v())
        .push(parser_uses_v())
        .push(parser_utree_v())
        .push(parser_module_v())
        .push(parser_konst_v())
        .push(parser_alias_v())
        .push(parser_ext_v())
}

/// Whether none of the first `n` rules carries the tag `tag`.
#[verifier::opaque]
pub open spec fn untagged(rs: Seq<RuleV>, tag: Seq<char>, n: nat) -> bool
    decreases n,
{
    n == 0 || (rs[n - 1].tag != Some(tag) && untagged(rs, tag, (n - 1) as nat))
}

proof fn lemma_untagged(rs: Seq<RuleV>, tag: Seq<char>, n: nat)
    requires
        untagged(rs, tag, n),
    ensures
        forall|i: int| 0 <= i < n ==> (#[trigger] rs[i]).tag != Some(tag),
    decreases n,
{
    reveal(untagged);
    if n > 0 {
        lemma_untagged(rs, tag, (n - 1) as nat);
    }
}

proof fn lemma_untagged_prefix(rs: Seq<RuleV>, r: RuleV, tag: Seq<char>, n: nat)
    requires
        n <= rs.len(),
    ensures
        untagged(rs.push(r), tag, n) == untagged(rs, tag, n),
    decreases n,
{
    reveal(untagged);
    if n > 0 {
        assert(rs.push(r)[n - 1] == rs[n - 1]);
        lemma_untagged_prefix(rs, r, tag, (n - 1) as nat);
    }
}

proof fn lemma_untagged_push(rs: Seq<RuleV>, r: RuleV, tag: Seq<char>)
    requires
        untagged(rs, tag, rs.len()),
        r.tag != Some(tag),
    ensures
        untagged(rs.push(r), tag, rs.len() + 1),
{
    reveal(untagged);
    lemma_untagged_prefix(rs, r, tag, rs.len());
    assert(rs.push(r)[rs.len() as int] == r);
}

/// No rule of the grammar carries the `pattern` tag: struct patterns are read as literals.
pub proof fn lemma_no_pattern()
    ensures
        forall|i: int| 0 <= i < rust_grammar().len() ==> (#[trigger] rust_grammar()[i]).tag != Some("pattern"@),
{
    reveal_strlit("pattern");
    let s0 = Seq::<RuleV>::empty();
    assert(untagged(s0, "pattern"@, 0)) by {
        reveal(untagged);
    }
    assert(lexer_ws_v().tag != Some("pattern"@)) by {
        reveal_strlit("skip");
        reveal_strlit("pattern");
        assert(lexer_ws_v().tag == Some("skip"@));
        assert("skip"@[0] != "pattern"@[0]);
    }
    lemma_untagged_push(s0, lexer_ws_v(), "pattern"@);
    let s1 = s0.push(lexer_ws_v());
    assert(lexer_line_v().tag != Some("pattern"@)) by {
        reveal_strlit("comment");
        reveal_strlit("pattern");
        assert(lexer_line_v().tag == Some("comment"@));
        assert("comment"@[0] != "pattern"@[0]);
    }
    lemma_untagged_push(s1, lexer_line_v(), "pattern"@);
    let s2 = s1.push(lexer_line_v());
    assert(lexer_block_v().tag != Some("pattern"@)) by {
        reveal_strlit("comment");
        reveal_strlit("pattern");
        assert(lexer_block_v().tag == Some("comment"@));
        assert("comment"@[0] != "pattern"@[0]);
    }
    lemma_untagged_push(s2, lexer_block_v(), "pattern"@);
    let s3 = s2.push(lexer_block_v());
    assert(lexer_ident_v().tag != Some("pattern"@));
    lemma_untagged_push(s3, lexer_ident_v(), "pattern"@);
    let s4 = s3.push(lexer_ident_v());
    assert(lexer_lifetime_v().tag != Some("pattern"@));
    lemma_untagged_push(s4, lexer_lifetime_v(), "pattern"@);
    let s5 = s4.push(lexer_lifetime_v());
    assert(lexer_char_v().tag != Some("pattern"@));
    lemma_untagged_push(s5, lexer_char_v(), "pattern"@);
    let s6 = s5.push(lexer_char_v());
    assert(lexer_string_v().tag != Some("pattern"@));
    lemma_untagged_push(s6, lexer_string_v(), "pattern"@);
    let s7 = s6.push(lexer_string_v());
    assert(lexer_raw_v().tag != Some("pattern"@));
    lemma_untagged_push(s7, lexer_raw_v(), "pattern"@);
    let s8 = s7.push(lexer_raw_v());
    assert(lexer_number_v().tag != Some("pattern"@));
    lemma_untagged_push(s8, lexer_number_v(), "pattern"@);
    let s9 = s8.push(lexer_number_v());
    assert(lexer_punct_v().tag != Some("pattern"@));
    lemma_untagged_push(s9, lexer_punct_v(), "pattern"@);
    let s10 = s9.push(lexer_punct_v());
    assert(parser_keyword_v().tag != Some("pattern"@));
    lemma_untagged_push(s10, parser_keyword_v(), "pattern"@);
    let s11 = s10.push(parser_keyword_v());
    assert(parser_unit_v().tag != Some("pattern"@));
    lemma_untagged_push(s11, parser_unit_v(), "pattern"@);
    let s12 = s11.push(parser_unit_v());
    assert(parser_tt_v().tag != Some("pattern"@));
    lemma_untagged_push(s12, parser_tt_v(), "pattern"@);
    let s13 = s12.push(parser_tt_v());
    assert(parser_gtt_v().tag != Some("pattern"@));
    lemma_untagged_push(s13, parser_gtt_v(), "pattern"@);
    let s14 = s13.push(parser_gtt_v());
    assert(parser_attr_v().tag != Some("pattern"@));
    lemma_untagged_push(s14, parser_attr_v(), "pattern"@);
    let s15 = s14.push(parser_attr_v());
    assert(parser_vis_v().tag != Some("pattern"@));
    lemma_untagged_push(s15, parser_vis_v(), "pattern"@);
    let s16 = s15.push(parser_vis_v());
    assert(parser_item_v().tag != Some("pattern"@)) by {
        reveal_strlit("item");
        reveal_strlit("pattern");
        assert(parser_item_v().tag == Some("item"@));
        assert("item"@[0] != "pattern"@[0]);
    }
    lemma_untagged_push(s16, parser_item_v(), "pattern"@);
    let s17 = s16.push(parser_item_v());
    assert(parser_name_v().tag != Some("pattern"@)) by {
        reveal_strlit("word");
        reveal_strlit("pattern");
        assert(parser_name_v().tag == Some("word"@));
        assert("word"@[0] != "pattern"@[0]);
    }
    lemma_untagged_push(s17, parser_name_v(), "pattern"@);
    let s18 = s17.push(parser_name_v());
    assert(parser_generics_v().tag != Some("pattern"@));
    lemma_untagged_push(s18, parser_generics_v(), "pattern"@);
    let s19 = s18.push(parser_generics_v());
    assert(parser_qual_v().tag != Some("pattern"@));
    lemma_untagged_push(s19, parser_qual_v(), "pattern"@);
    let s20 = s19.push(parser_qual_v());
    assert(parser_func_v().tag != Some("pattern"@));
    lemma_untagged_push(s20, parser_func_v(), "pattern"@);
    let s21 = s20.push(parser_func_v());
    assert(parser_param_v().tag != Some("pattern"@));
    lemma_untagged_push(s21, parser_param_v(), "pattern"@);
    let s22 = s21.push(parser_param_v());
    assert(parser_type_v().tag != Some("pattern"@));
    lemma_untagged_push(s22, parser_type_v(), "pattern"@);
    let s23 = s22.push(parser_type_v());
    assert(parser_tyatom_v().tag != Some("pattern"@));
    lemma_untagged_push(s23, parser_tyatom_v(), "pattern"@);
    let s24 = s23.push(parser_tyatom_v());
    assert(parser_where_v().tag != Some("pattern"@));
    lemma_untagged_push(s24, parser_where_v(), "pattern"@);
    let s25 = s24.push(parser_where_v());
    assert(parser_body_v().tag != Some("pattern"@)) by {
        reveal_strlit("scope");
        reveal_strlit("pattern");
        assert(parser_body_v().tag == Some("scope"@));
        assert("scope"@[0] != "pattern"@[0]);
    }
    lemma_untagged_push(s25, parser_body_v(), "pattern"@);
    let s26 = s25.push(parser_body_v());
    assert(parser_block_v().tag != Some("pattern"@)) by {
        reveal_strlit("scope");
        reveal_strlit("pattern");
        assert(parser_block_v().tag == Some("scope"@));
        assert("scope"@[0] != "pattern"@[0]);
    }
    lemma_untagged_push(s26, parser_block_v(), "pattern"@);
    let s27 = s26.push(parser_block_v());
    assert(parser_stmt_v().tag != Some("pattern"@));
    lemma_untagged_push(s27, parser_stmt_v(), "pattern"@);
    let s28 = s27.push(parser_stmt_v());
    assert(parser_binding_v().tag != Some("pattern"@));
    lemma_untagged_push(s28, parser_binding_v(), "pattern"@);
    let s29 = s28.push(parser_binding_v());
    assert(parser_path_v().tag != Some("pattern"@));
    lemma_untagged_push(s29, parser_path_v(), "pattern"@);
    let s30 = s29.push(parser_path_v());
    assert(parser_qpath_v().tag != Some("pattern"@));
    lemma_untagged_push(s30, parser_qpath_v(), "pattern"@);
    let s31 = s30.push(parser_qpath_v());
    assert(parser_pat_v().tag != Some("pattern"@));
    lemma_untagged_push(s31, parser_pat_v(), "pattern"@);
    let s32 = s31.push(parser_pat_v());
    assert(parser_pat1_v().tag != Some("pattern"@));
    lemma_untagged_push(s32, parser_pat1_v(), "pattern"@);
    let s33 = s32.push(parser_pat1_v());
    assert(parser_spat_v().tag != Some("pattern"@)) by {
        reveal_strlit("literal");
        reveal_strlit("pattern");
        assert(parser_spat_v().tag == Some("literal"@));
        assert("literal"@[0] != "pattern"@[0]);
    }
    lemma_untagged_push(s33, parser_spat_v(), "pattern"@);
    let s34 = s33.push(parser_spat_v());
    assert(parser_blocky_v().tag != Some("pattern"@));
    lemma_untagged_push(s34, parser_blocky_v(), "pattern"@);
    let s35 = s34.push(parser_blocky_v());
    assert(parser_cond_v().tag != Some("pattern"@));
    lemma_untagged_push(s35, parser_cond_v(), "pattern"@);
    let s36 = s35.push(parser_cond_v());
    assert(parser_ifx_v().tag != Some("pattern"@));
    lemma_untagged_push(s36, parser_ifx_v(), "pattern"@);
    let s37 = s36.push(parser_ifx_v());
    assert(parser_whilex_v().tag != Some("pattern"@));
    lemma_untagged_push(s37, parser_whilex_v(), "pattern"@);
    let s38 = s37.push(parser_whilex_v());
    assert(parser_forx_v().tag != Some("pattern"@));
    lemma_untagged_push(s38, parser_forx_v(), "pattern"@);
    let s39 = s38.push(parser_forx_v());
    assert(parser_matchx_v().tag != Some("pattern"@));
    lemma_untagged_push(s39, parser_matchx_v(), "pattern"@);
    let s40 = s39.push(parser_matchx_v());
    assert(parser_arm_v().tag != Some("pattern"@));
    lemma_untagged_push(s40, parser_arm_v(), "pattern"@);
    let s41 = s40.push(parser_arm_v());
    assert(parser_closure_v().tag != Some("pattern"@));
    lemma_untagged_push(s41, parser_closure_v(), "pattern"@);
    let s42 = s41.push(parser_closure_v());
    assert(parser_expr_v().tag != Some("pattern"@));
    lemma_untagged_push(s42, parser_expr_v(), "pattern"@);
    let s43 = s42.push(parser_expr_v());
    assert(parser_group_v().tag != Some("pattern"@));
    lemma_untagged_push(s43, parser_group_v(), "pattern"@);
    let s44 = s43.push(parser_group_v());
    assert(parser_mac_v().tag != Some("pattern"@));
    lemma_untagged_push(s44, parser_mac_v(), "pattern"@);
    let s45 = s44.push(parser_mac_v());
    assert(parser_macx_v().tag != Some("pattern"@));
    lemma_untagged_push(s45, parser_macx_v(), "pattern"@);
    let s46 = s45.push(parser_macx_v());
    assert(parser_slit_v().tag != Some("pattern"@)) by {
        reveal_strlit("literal");
        reveal_strlit("pattern");
        assert(parser_slit_v().tag == Some("literal"@));
        assert("literal"@[0] != "pattern"@[0]);
    }
    lemma_untagged_push(s46, parser_slit_v(), "pattern"@);
    let s47 = s46.push(parser_slit_v());
    assert(parser_atom_v().tag != Some("pattern"@));
    lemma_untagged_push(s47, parser_atom_v(), "pattern"@);
    let s48 = s47.push(parser_atom_v());
    assert(parser_catom_v().tag != Some("pattern"@));
    lemma_untagged_push(s48, parser_catom_v(), "pattern"@);
    let s49 = s48.push(parser_catom_v());
    assert(parser_op_v().tag != Some("pattern"@));
    lemma_untagged_push(s49, parser_op_v(), "pattern"@);
    let s50 = s49.push(parser_op_v());
    assert(parser_strukt_v().tag != Some("pattern"@));
    lemma_untagged_push(s50, parser_strukt_v(), "pattern"@);
    let s51 = s50.push(parser_strukt_v());
    assert(parser_field_v().tag != Some("pattern"@));
    lemma_untagged_push(s51, parser_field_v(), "pattern"@);
    let s52 = s51.push(parser_field_v());
    assert(parser_enumer_v().tag != Some("pattern"@));
    lemma_untagged_push(s52, parser_enumer_v(), "pattern"@);
    let s53 = s52.push(parser_enumer_v());
    assert(parser_variant_v().tag != Some("pattern"@));
    lemma_untagged_push(s53, parser_variant_v(), "pattern"@);
    let s54 = s53.push(parser_variant_v());
    assert(parser_trait_v().tag != Some("pattern"@));
    lemma_untagged_push(s54, parser_trait_v(), "pattern"@);
    let s55 = s54.push(parser_trait_v());
    assert(parser_imp_v().tag != Some("pattern"@));
    lemma_untagged_push(s55, parser_imp_v(), "pattern"@);
    let s56 = s55.push(parser_imp_v());
    assert(parser_uses_v().tag != Some("pattern"@));
    lemma_untagged_push(s56, parser_uses_v(), "pattern"@);
    let s57 = s56.push(parser_uses_v());
    assert(parser_utree_v().tag != Some("pattern"@));
    lemma_untagged_push(s57, parser_utree_v(), "pattern"@);
    let s58 = s57.push(parser_utree_v());
    assert(parser_module_v().tag != Some("pattern"@));
    lemma_untagged_push(s58, parser_module_v(), "pattern"@);
    let s59 = s58.push(parser_module_v());
    assert(parser_konst_v().tag != Some("pattern"@));
    lemma_untagged_push(s59, parser_konst_v(), "pattern"@);
    let s60 = s59.push(parser_konst_v());
    assert(parser_alias_v().tag != Some("pattern"@));
    lemma_untagged_push(s60, parser_alias_v(), "pattern"@);
    let s61 = s60.push(parser_alias_v());
    assert(parser_ext_v().tag != Some("pattern"@));
    lemma_untagged_push(s61, parser_ext_v(), "pattern"@);
    let s62 = s61.push(parser_ext_v());
    assert(s62 == rust_grammar());
    lemma_untagged(s62, "pattern"@, 62);
}

/// Whether a rule, when it is one of the comment rules `LINE` or `BLOCK`, carries the `comment`
/// tag.
pub open spec fn commented(r: RuleV) -> bool {
    r.name == "BLOCK"@ || r.name == "LINE"@ ==> r.tag == Some("comment"@)
}

/// Whether `p` holds of each of the first `n` rules.
#[verifier::opaque]
pub open spec fn every(rs: Seq<RuleV>, p: spec_fn(RuleV) -> bool, n: nat) -> bool
    decreases n,
{
    n == 0 || (p(rs[n - 1]) && every(rs, p, (n - 1) as nat))
}

proof fn lemma_every(rs: Seq<RuleV>, p: spec_fn(RuleV) -> bool, n: nat)
    requires
        every(rs, p, n),
    ensures
        forall|i: int| 0 <= i < n ==> p(#[trigger] rs[i]),
    decreases n,
{
    reveal(every);
    if n > 0 {
        lemma_every(rs, p, (n - 1) as nat);
    }
}

proof fn lemma_every_prefix(rs: Seq<RuleV>, r: RuleV, p: spec_fn(RuleV) -> bool, n: nat)
    requires
        n <= rs.len(),
    ensures
        every(rs.push(r), p, n) == every(rs, p, n),
    decreases n,
{
    reveal(every);
    if n > 0 {
        assert(rs.push(r)[n - 1] == rs[n - 1]);
        lemma_every_prefix(rs, r, p, (n - 1) as nat);
    }
}

proof fn lemma_every_push(rs: Seq<RuleV>, r: RuleV, p: spec_fn(RuleV) -> bool)
    requires
        every(rs, p, rs.len()),
        p(r),
    ensures
        every(rs.push(r), p, rs.len() + 1),
{
    reveal(every);
    lemma_every_prefix(rs, r, p, rs.len());
    assert(rs.push(r)[rs.len() as int] == r);
}

/// The comment rules of the grammar, `LINE` and `BLOCK`, carry the `comment` tag: both kinds of
/// comment are kept as comments, not skipped like white space.
pub proof fn lemma_comment_rules()
    ensures
        forall|i: int| 0 <= i < rust_grammar().len() ==> commented(#[trigger] rust_grammar()[i]),
{
    reveal_strlit("BLOCK");
    reveal_strlit("LINE");
    reveal_strlit("comment");
    let s0 = Seq::<RuleV>::empty();
    assert(every(s0, |r: RuleV| commented(r), 0)) by {
        reveal(every);
    }
    assert(commented(lexer_ws_v())) by {
        reveal_strlit("WS");
        assert("WS"@.len() != "BLOCK"@.len());
        assert("WS"@.len() != "LINE"@.len());
        reveal_strlit("skip");
    }
    lemma_every_push(s0, lexer_ws_v(), |r: RuleV| commented(r));
    let s1 = s0.push(lexer_ws_v());
    assert(commented(lexer_line_v())) by {
        reveal_strlit("LINE");
        assert("LINE"@.len() != "BLOCK"@.len());
        reveal_strlit("comment");
        assert(lexer_line_v().tag == Some("comment"@));
    }
    lemma_every_push(s1, lexer_line_v(), |r: RuleV| commented(r));
    let s2 = s1.push(lexer_line_v());
    assert(commented(lexer_block_v())) by {
        reveal_strlit("BLOCK");
        assert("BLOCK"@.len() != "LINE"@.len());
        reveal_strlit("comment");
        assert(lexer_block_v().tag == Some("comment"@));
    }
    lemma_every_push(s2, lexer_block_v(), |r: RuleV| commented(r));
    let s3 = s2.push(lexer_block_v());
    assert(commented(lexer_ident_v())) by {
        reveal_strlit("IDENT");
        assert("IDENT"@[0] != "BLOCK"@[0]);
        assert("IDENT"@.len() != "LINE"@.len());
    }
    lemma_every_push(s3, lexer_ident_v(), |r: RuleV| commented(r));
    let s4 = s3.push(lexer_ident_v());
    assert(commented(lexer_lifetime_v())) by {
        reveal_strlit("LIFETIME");
        assert("LIFETIME"@.len() != "BLOCK"@.len());
        assert("LIFETIME"@.len() != "LINE"@.len());
    }
    lemma_every_push(s4, lexer_lifetime_v(), |r: RuleV| commented(r));
    let s5 = s4.push(lexer_lifetime_v());
    assert(commented(lexer_char_v())) by {
        reveal_strlit("CHAR");
        assert("CHAR"@.len() != "BLOCK"@.len());
        assert("CHAR"@[0] != "LINE"@[0]);
    }
    lemma_every_push(s5, lexer_char_v(), |r: RuleV| commented(r));
    let s6 = s5.push(lexer_char_v());
    assert(commented(lexer_string_v())) by {
        reveal_strlit("STRING");
        assert("STRING"@.len() != "BLOCK"@.len());
        assert("STRING"@.len() != "LINE"@.len());
    }
    lemma_every_push(s6, lexer_string_v(), |r: RuleV| commented(r));
    let s7 = s6.push(lexer_string_v());
    assert(commented(lexer_raw_v())) by {
        reveal_strlit("RAW");
        assert("RAW"@.len() != "BLOCK"@.len());
        assert("RAW"@.len() != "LINE"@.len());
    }
    lemma_every_push(s7, lexer_raw_v(), |r: RuleV| commented(r));
    let s8 = s7.push(lexer_raw_v());
    assert(commented(lexer_number_v())) by {
        reveal_strlit("NUMBER");
        assert("NUMBER"@.len() != "BLOCK"@.len());
        assert("NUMBER"@.len() != "LINE"@.len());
    }
    lemma_every_push(s8, lexer_number_v(), |r: RuleV| commented(r));
    let s9 = s8.push(lexer_number_v());
    assert(commented(lexer_punct_v())) by {
        reveal_strlit("PUNCT");
        assert("PUNCT"@[0] != "BLOCK"@[0]);
        assert("PUNCT"@.len() != "LINE"@.len());
    }
    lemma_every_push(s9, lexer_punct_v(), |r: RuleV| commented(r));
    let s10 = s9.push(lexer_punct_v());
    assert(commented(parser_keyword_v())) by {
        reveal_strlit("keyword");
        assert("keyword"@.len() != "BLOCK"@.len());
        assert("keyword"@.len() != "LINE"@.len());
    }
    lemma_every_push(s10, parser_keyword_v(), |r: RuleV| commented(r));
    let s11 = s10.push(parser_keyword_v());
    assert(commented(parser_unit_v())) by {
        reveal_strlit("unit");
        assert("unit"@.len() != "BLOCK"@.len());
        assert("unit"@[0] != "LINE"@[0]);
    }
    lemma_every_push(s11, parser_unit_v(), |r: RuleV| commented(r));
    let s12 = s11.push(parser_unit_v());
    assert(commented(parser_tt_v())) by {
        reveal_strlit("tt");
        assert("tt"@.len() != "BLOCK"@.len());
        assert("tt"@.len() != "LINE"@.len());
    }
    lemma_every_push(s12, parser_tt_v(), |r: RuleV| commented(r));
    let s13 = s12.push(parser_tt_v());
    assert(commented(parser_gtt_v())) by {
        reveal_strlit("gtt");
        assert("gtt"@.len() != "BLOCK"@.len());
        assert("gtt"@.len() != "LINE"@.len());
    }
    lemma_every_push(s13, parser_gtt_v(), |r: RuleV| commented(r));
    let s14 = s13.push(parser_gtt_v());
    assert(commented(parser_attr_v())) by {
        reveal_strlit("attr");
        assert("attr"@.len() != "BLOCK"@.len());
        assert("attr"@[0] != "LINE"@[0]);
    }
    lemma_every_push(s14, parser_attr_v(), |r: RuleV| commented(r));
    let s15 = s14.push(parser_attr_v());
    assert(commented(parser_vis_v())) by {
        reveal_strlit("vis");
        assert("vis"@.len() != "BLOCK"@.len());
        assert("vis"@.len() != "LINE"@.len());
    }
    lemma_every_push(s15, parser_vis_v(), |r: RuleV| commented(r));
    let s16 = s15.push(parser_vis_v());
    assert(commented(parser_item_v())) by {
        reveal_strlit("item");
        assert("item"@.len() != "BLOCK"@.len());
        assert("item"@[0] != "LINE"@[0]);
        reveal_strlit("item");
    }
    lemma_every_push(s16, parser_item_v(), |r: RuleV| commented(r));
    let s17 = s16.push(parser_item_v());
    assert(commented(parser_name_v())) by {
        reveal_strlit("name");
        assert("name"@.len() != "BLOCK"@.len());
        assert("name"@[0] != "LINE"@[0]);
        reveal_strlit("word");
    }
    lemma_every_push(s17, parser_name_v(), |r: RuleV| commented(r));
    let s18 = s17.push(parser_name_v());
    assert(commented(parser_generics_v())) by {
        reveal_strlit("generics");
        assert("generics"@.len() != "BLOCK"@.len());
        assert("generics"@.len() != "LINE"@.len());
    }
    lemma_every_push(s18, parser_generics_v(), |r: RuleV| commented(r));
    let s19 = s18.push(parser_generics_v());
    assert(commented(parser_qual_v())) by {
        reveal_strlit("qual");
        assert("qual"@.len() != "BLOCK"@.len());
        assert("qual"@[0] != "LINE"@[0]);
    }
    lemma_every_push(s19, parser_qual_v(), |r: RuleV| commented(r));
    let s20 = s19.push(parser_qual_v());
    assert(commented(parser_func_v())) by {
        reveal_strlit("func");
        assert("func"@.len() != "BLOCK"@.len());
        assert("func"@[0] != "LINE"@[0]);
    }
    lemma_every_push(s20, parser_func_v(), |r: RuleV| commented(r));
    let s21 = s20.push(parser_func_v());
    assert(commented(parser_param_v())) by {
        reveal_strlit("param");
        assert("param"@[0] != "BLOCK"@[0]);
        assert("param"@.len() != "LINE"@.len());
    }
    lemma_every_push(s21, parser_param_v(), |r: RuleV| commented(r));
    let s22 = s21.push(parser_param_v());
    assert(commented(parser_type_v())) by {
        reveal_strlit("type");
        assert("type"@.len() != "BLOCK"@.len());
        assert("type"@[0] != "LINE"@[0]);
    }
    lemma_every_push(s22, parser_type_v(), |r: RuleV| commented(r));
    let s23 = s22.push(parser_type_v());
    assert(commented(parser_tyatom_v())) by {
        reveal_strlit("tyatom");
        assert("tyatom"@.len() != "BLOCK"@.len());
        assert("tyatom"@.len() != "LINE"@.len());
    }
    lemma_every_push(s23, parser_tyatom_v(), |r: RuleV| commented(r));
    let s24 = s23.push(parser_tyatom_v());
    assert(commented(parser_where_v())) by {
        reveal_strlit("where");
        assert("where"@[0] != "BLOCK"@[0]);
        assert("where"@.len() != "LINE"@.len());
    }
    lemma_every_push(s24, parser_where_v(), |r: RuleV| commented(r));
    let s25 = s24.push(parser_where_v());
    assert(commented(parser_body_v())) by {
        reveal_strlit("body");
        assert("body"@.len() != "BLOCK"@.len());
        assert("body"@[0] != "LINE"@[0]);
        reveal_strlit("scope");
    }
    lemma_every_push(s25, parser_body_v(), |r: RuleV| commented(r));
    let s26 = s25.push(parser_body_v());
    assert(commented(parser_block_v())) by {
        reveal_strlit("block");
        assert("block"@[0] != "BLOCK"@[0]);
        assert("block"@.len() != "LINE"@.len());
        reveal_strlit("scope");
    }
    lemma_every_push(s26, parser_block_v(), |r: RuleV| commented(r));
    let s27 = s26.push(parser_block_v());
    assert(commented(parser_stmt_v())) by {
        reveal_strlit("stmt");
        assert("stmt"@.len() != "BLOCK"@.len());
        assert("stmt"@[0] != "LINE"@[0]);
    }
    lemma_every_push(s27, parser_stmt_v(), |r: RuleV| commented(r));
    let s28 = s27.push(parser_stmt_v());
    assert(commented(parser_binding_v())) by {
        reveal_strlit("binding");
        assert("binding"@.len() != "BLOCK"@.len());
        assert("binding"@.len() != "LINE"@.len());
    }
    lemma_every_push(s28, parser_binding_v(), |r: RuleV| commented(r));
    let s29 = s28.push(parser_binding_v());
    assert(commented(parser_path_v())) by {
        reveal_strlit("path");
        assert("path"@.len() != "BLOCK"@.len());
        assert("path"@[0] != "LINE"@[0]);
    }
    lemma_every_push(s29, parser_path_v(), |r: RuleV| commented(r));
    let s30 = s29.push(parser_path_v());
    assert(commented(parser_qpath_v())) by {
        reveal_strlit("qpath");
        assert("qpath"@[0] != "BLOCK"@[0]);
        assert("qpath"@.len() != "LINE"@.len());
    }
    lemma_every_push(s30, parser_qpath_v(), |r: RuleV| commented(r));
    let s31 = s30.push(parser_qpath_v());
    assert(commented(parser_pat_v())) by {
        reveal_strlit("pat");
        assert("pat"@.len() != "BLOCK"@.len());
        assert("pat"@.len() != "LINE"@.len());
    }
    lemma_every_push(s31, parser_pat_v(), |r: RuleV| commented(r));
    let s32 = s31.push(parser_pat_v());
    assert(commented(parser_pat1_v())) by {
        reveal_strlit("pat1");
        assert("pat1"@.len() != "BLOCK"@.len());
        assert("pat1"@[0] != "LINE"@[0]);
    }
    lemma_every_push(s32, parser_pat1_v(), |r: RuleV| commented(r));
    let s33 = s32.push(parser_pat1_v());
    assert(commented(parser_spat_v())) by {
        reveal_strlit("spat");
        assert("spat"@.len() != "BLOCK"@.len());
        assert("spat"@[0] != "LINE"@[0]);
        reveal_strlit("literal");
    }
    lemma_every_push(s33, parser_spat_v(), |r: RuleV| commented(r));
    let s34 = s33.push(parser_spat_v());
    assert(commented(parser_blocky_v())) by {
        reveal_strlit("blocky");
        assert("blocky"@.len() != "BLOCK"@.len());
        assert("blocky"@.len() != "LINE"@.len());
    }
    lemma_every_push(s34, parser_blocky_v(), |r: RuleV| commented(r));
    let s35 = s34.push(parser_blocky_v());
    assert(commented(parser_cond_v())) by {
        reveal_strlit("cond");
        assert("cond"@.len() != "BLOCK"@.len());
        assert("cond"@[0] != "LINE"@[0]);
    }
    lemma_every_push(s35, parser_cond_v(), |r: RuleV| commented(r));
    let s36 = s35.push(parser_cond_v());
    assert(commented(parser_ifx_v())) by {
        reveal_strlit("ifx");
        assert("ifx"@.len() != "BLOCK"@.len());
        assert("ifx"@.len() != "LINE"@.len());
    }
    lemma_every_push(s36, parser_ifx_v(), |r: RuleV| commented(r));
    let s37 = s36.push(parser_ifx_v());
    assert(commented(parser_whilex_v())) by {
        reveal_strlit("whilex");
        assert("whilex"@.len() != "BLOCK"@.len());
        assert("whilex"@.len() != "LINE"@.len());
    }
    lemma_every_push(s37, parser_whilex_v(), |r: RuleV| commented(r));
    let s38 = s37.push(parser_whilex_v());
    assert(commented(parser_forx_v())) by {
        reveal_strlit("forx");
        assert("forx"@.len() != "BLOCK"@.len());
        assert("forx"@[0] != "LINE"@[0]);
    }
    lemma_every_push(s38, parser_forx_v(), |r: RuleV| commented(r));
    let s39 = s38.push(parser_forx_v());
    assert(commented(parser_matchx_v())) by {
        reveal_strlit("matchx");
        assert("matchx"@.len() != "BLOCK"@.len());
        assert("matchx"@.len() != "LINE"@.len());
    }
    lemma_every_push(s39, parser_matchx_v(), |r: RuleV| commented(r));
    let s40 = s39.push(parser_matchx_v());
    assert(commented(parser_arm_v())) by {
        reveal_strlit("arm");
        assert("arm"@.len() != "BLOCK"@.len());
        assert("arm"@.len() != "LINE"@.len());
    }
    lemma_every_push(s40, parser_arm_v(), |r: RuleV| commented(r));
    let s41 = s40.push(parser_arm_v());
    assert(commented(parser_closure_v())) by {
        reveal_strlit("closure");
        assert("closure"@.len() != "BLOCK"@.len());
        assert("closure"@.len() != "LINE"@.len());
    }
    lemma_every_push(s41, parser_closure_v(), |r: RuleV| commented(r));
    let s42 = s41.push(parser_closure_v());
    assert(commented(parser_expr_v())) by {
        reveal_strlit("expr");
        assert("expr"@.len() != "BLOCK"@.len());
        assert("expr"@[0] != "LINE"@[0]);
    }
    lemma_every_push(s42, parser_expr_v(), |r: RuleV| commented(r));
    let s43 = s42.push(parser_expr_v());
    assert(commented(parser_group_v())) by {
        reveal_strlit("group");
        assert("group"@[0] != "BLOCK"@[0]);
        assert("group"@.len() != "LINE"@.len());
    }
    lemma_every_push(s43, parser_group_v(), |r: RuleV| commented(r));
    let s44 = s43.push(parser_group_v());
    assert(commented(parser_mac_v())) by {
        reveal_strlit("mac");
        assert("mac"@.len() != "BLOCK"@.len());
        assert("mac"@.len() != "LINE"@.len());
    }
    lemma_every_push(s44, parser_mac_v(), |r: RuleV| commented(r));
    let s45 = s44.push(parser_mac_v());
    assert(commented(parser_macx_v())) by {
        reveal_strlit("macx");
        assert("macx"@.len() != "BLOCK"@.len());
        assert("macx"@[0] != "LINE"@[0]);
    }
    lemma_every_push(s45, parser_macx_v(), |r: RuleV| commented(r));
    let s46 = s45.push(parser_macx_v());
    assert(commented(parser_slit_v())) by {
        reveal_strlit("slit");
        assert("slit"@.len() != "BLOCK"@.len());
        assert("slit"@[0] != "LINE"@[0]);
        reveal_strlit("literal");
    }
    lemma_every_push(s46, parser_slit_v(), |r: RuleV| commented(r));
    let s47 = s46.push(parser_slit_v());
    assert(commented(parser_atom_v())) by {
        reveal_strlit("atom");
        assert("atom"@.len() != "BLOCK"@.len());
        assert("atom"@[0] != "LINE"@[0]);
    }
    lemma_every_push(s47, parser_atom_v(), |r: RuleV| commented(r));
    let s48 = s47.push(parser_atom_v());
    assert(commented(parser_catom_v())) by {
        reveal_strlit("catom");
        assert("catom"@[0] != "BLOCK"@[0]);
        assert("catom"@.len() != "LINE"@.len());
    }
    lemma_every_push(s48, parser_catom_v(), |r: RuleV| commented(r));
    let s49 = s48.push(parser_catom_v());
    assert(commented(parser_op_v())) by {
        reveal_strlit("op");
        assert("op"@.len() != "BLOCK"@.len());
        assert("op"@.len() != "LINE"@.len());
    }
    lemma_every_push(s49, parser_op_v(), |r: RuleV| commented(r));
    let s50 = s49.push(parser_op_v());
    assert(commented(parser_strukt_v())) by {
        reveal_strlit("strukt");
        assert("strukt"@.len() != "BLOCK"@.len());
        assert("strukt"@.len() != "LINE"@.len());
    }
    lemma_every_push(s50, parser_strukt_v(), |r: RuleV| commented(r));
    let s51 = s50.push(parser_strukt_v());
    assert(commented(parser_field_v())) by {
        reveal_strlit("field");
        assert("field"@[0] != "BLOCK"@[0]);
        assert("field"@.len() != "LINE"@.len());
    }
    lemma_every_push(s51, parser_field_v(), |r: RuleV| commented(r));
    let s52 = s51.push(parser_field_v());
    assert(commented(parser_enumer_v())) by {
        reveal_strlit("enumer");
        assert("enumer"@.len() != "BLOCK"@.len());
        assert("enumer"@.len() != "LINE"@.len());
    }
    lemma_every_push(s52, parser_enumer_v(), |r: RuleV| commented(r));
    let s53 = s52.push(parser_enumer_v());
    assert(commented(parser_variant_v())) by {
        reveal_strlit("variant");
        assert("variant"@.len() != "BLOCK"@.len());
        assert("variant"@.len() != "LINE"@.len());
    }
    lemma_every_push(s53, parser_variant_v(), |r: RuleV| commented(r));
    let s54 = s53.push(parser_variant_v());
    assert(commented(parser_trait_v())) by {
        reveal_strlit("trait");
        assert("trait"@[0] != "BLOCK"@[0]);
        assert("trait"@.len() != "LINE"@.len());
    }
    lemma_every_push(s54, parser_trait_v(), |r: RuleV| commented(r));
    let s55 = s54.push(parser_trait_v());
    assert(commented(parser_imp_v())) by {
        reveal_strlit("imp");
        assert("imp"@.len() != "BLOCK"@.len());
        assert("imp"@.len() != "LINE"@.len());
    }
    lemma_every_push(s55, parser_imp_v(), |r: RuleV| commented(r));
    let s56 = s55.push(parser_imp_v());
    assert(commented(parser_uses_v())) by {
        reveal_strlit("uses");
        assert("uses"@.len() != "BLOCK"@.len());
        assert("uses"@[0] != "LINE"@[0]);
    }
    lemma_every_push(s56, parser_uses_v(), |r: RuleV| commented(r));
    let s57 = s56.push(parser_uses_v());
    assert(commented(parser_utree_v())) by {
        reveal_strlit("utree");
        assert("utree"@[0] != "BLOCK"@[0]);
        assert("utree"@.len() != "LINE"@.len());
    }
    lemma_every_push(s57, parser_utree_v(), |r: RuleV| commented(r));
    let s58 = s57.push(parser_utree_v());
    assert(commented(parser_module_v())) by {
        reveal_strlit("module");
        assert("module"@.len() != "BLOCK"@.len());
        assert("module"@.len() != "LINE"@.len());
    }
    lemma_every_push(s58, parser_module_v(), |r: RuleV| commented(r));
    let s59 = s58.push(parser_module_v());
    assert(commented(parser_konst_v())) by {
        reveal_strlit("konst");
        assert("konst"@[0] != "BLOCK"@[0]);
        assert("konst"@.len() != "LINE"@.len());
    }
    lemma_every_push(s59, parser_konst_v(), |r: RuleV| commented(r));
    let s60 = s59.push(parser_konst_v());
    assert(commented(parser_alias_v())) by {
        reveal_strlit("alias");
        assert("alias"@[0] != "BLOCK"@[0]);
        assert("alias"@.len() != "LINE"@.len());
    }
    lemma_every_push(s60, parser_alias_v(), |r: RuleV| commented(r));
    let s61 = s60.push(parser_alias_v());
    assert(commented(parser_ext_v())) by {
        reveal_strlit("ext");
        assert("ext"@.len() != "BLOCK"@.len());
        assert("ext"@.len() != "LINE"@.len());
    }
    lemma_every_push(s61, parser_ext_v(), |r: RuleV| commented(r));
    let s62 = s61.push(parser_ext_v());
    assert(s62 == rust_grammar());
    lemma_every(s62, |r: RuleV| commented(r), 62);
}

/// A literal: the bytes of `s`.
fn lit(s: &str) -> (p: Pat)
    ensures
        p@ == lit_v(s),
{
    let bytes = s.as_bytes();
    let mut w: Vec<u8> = Vec::new();
    let mut i: usize = 0;
    while i < bytes.len()
        invariant
            i <= bytes@.len(),
            w@ == bytes@.subrange(0, i as int),
        decreases bytes@.len() - i,
    {
        w.push(bytes[i]);
        i += 1;
        assert(w@ =~= bytes@.subrange(0, i as int));
    }
    assert(bytes@.subrange(0, bytes@.len() as int) =~= bytes@);
    Pat::Lit(w)
}

/// A reference to the rule or token kind `s`.
fn name(s: &str) -> (p: Pat)
    ensures
        p@ == name_v(s),
{
    Pat::Name(s.to_owned())
}

fn cat(parts: Vec<Pat>) -> (p: Pat)
    ensures
        p@ == cat_v(pats_view(parts@)),
{
    let p = Pat::Cat(parts);
    proof {
        crate::peg::lemma_pat_view(p);
    }
    p
}

fn alt(parts: Vec<Pat>) -> (p: Pat)
    ensures
        p@ == alt_v(pats_view(parts@)),
{
    let p = Pat::Alt(parts);
    proof {
        crate::peg::lemma_pat_view(p);
    }
    p
}

fn opt(inner: Pat) -> (p: Pat)
    ensures
        p@ == opt_v(inner@),
{
    Pat::Rep(Box::new(inner), Quant::Opt)
}

fn star(inner: Pat) -> (p: Pat)
    ensures
        p@ == star_v(inner@),
{
    Pat::Rep(Box::new(inner), Quant::Star)
}

fn plus(inner: Pat) -> (p: Pat)
    ensures
        p@ == plus_v(inner@),
{
    Pat::Rep(Box::new(inner), Quant::Plus)
}

fn not(inner: Pat) -> (p: Pat)
    ensures
        p@ == not_v(inner@),
{
    Pat::Not(Box::new(inner))
}

fn class(ranges: Vec<(u8, u8)>, negated: bool) -> (p: Pat)
    ensures
        p@ == class_v(ranges@, negated),
{
    Pat::Class(ranges, negated)
}

fn rule(name: &str, tag: Option<&str>, pat: Pat) -> (r: Rule)
    ensures
        r@ == rule_v(name, tag, pat@),
{
    let tag = match tag {
        Some(t) => Some(t.to_owned()),
        None => None,
    };
    Rule { name: name.to_owned(), tag, pat }
}

fn pats2(p0: Pat, p1: Pat) -> (v: Vec<Pat>)
    ensures
        pats_view(v@) == seq![p0@, p1@],
{
    let mut v: Vec<Pat> = Vec::new();
    v.push(p0);
    v.push(p1);
    assert(pats_view(v@) =~= seq![p0@, p1@]);
    v
}

fn pats3(p0: Pat, p1: Pat, p2: Pat) -> (v: Vec<Pat>)
    ensures
        pats_view(v@) == seq![p0@, p1@, p2@],
{
    let mut v: Vec<Pat> = Vec::new();
    v.push(p0);
    v.push(p1);
    v.push(p2);
    assert(pats_view(v@) =~= seq![p0@, p1@, p2@]);
    v
}

fn pats4(p0: Pat, p1: Pat, p2: Pat, p3: Pat) -> (v: Vec<Pat>)
    ensures
        pats_view(v@) == seq![p0@, p1@, p2@, p3@],
{
    let mut v: Vec<Pat> = Vec::new();
    v.push(p0);
    v.push(p1);
    v.push(p2);
    v.push(p3);
    assert(pats_view(v@) =~= seq![p0@, p1@, p2@, p3@]);
    v
}

fn pats5(p0: Pat, p1: Pat, p2: Pat, p3: Pat, p4: Pat) -> (v: Vec<Pat>)
    ensures
        pats_view(v@) == seq![p0@, p1@, p2@, p3@, p4@],
{
    let mut v: Vec<Pat> = Vec::new();
    v.push(p0);
    v.push(p1);
    v.push(p2);
    v.push(p3);
    v.push(p4);
    assert(pats_view(v@) =~= seq![p0@, p1@, p2@, p3@, p4@]);
    v
}

fn pats6(p0: Pat, p1: Pat, p2: Pat, p3: Pat, p4: Pat, p5: Pat) -> (v: Vec<Pat>)
    ensures
        pats_view(v@) == seq![p0@, p1@, p2@, p3@, p4@, p5@],
{
    let mut v: Vec<Pat> = Vec::new();
    v.push(p0);
    v.push(p1);
    v.push(p2);
    v.push(p3);
    v.push(p4);
    v.push(p5);
    assert(pats_view(v@) =~= seq![p0@, p1@, p2@, p3@, p4@, p5@]);
    v
}

fn pats7(p0: Pat, p1: Pat, p2: Pat, p3: Pat, p4: Pat, p5: Pat, p6: Pat) -> (v: Vec<Pat>)
    ensures
        pats_view(v@) == seq![p0@, p1@, p2@, p3@, p4@, p5@, p6@],
{
    let mut v: Vec<Pat> = Vec::new();
    v.push(p0);
    v.push(p1);
    v.push(p2);
    v.push(p3);
    v.push(p4);
    v.push(p5);
    v.push(p6);
    assert(pats_view(v@) =~= seq![p0@, p1@, p2@, p3@, p4@, p5@, p6@]);
    v
}

fn pats8(p0: Pat, p1: Pat, p2: Pat, p3: Pat, p4: Pat, p5: Pat, p6: Pat, p7: Pat) -> (v: Vec<Pat>)
    ensures
        pats_view(v@) == seq![p0@, p1@, p2@, p3@, p4@, p5@, p6@, p7@],
{
    let mut v: Vec<Pat> = Vec::new();
    v.push(p0);
    v.push(p1);
    v.push(p2);
    v.push(p3);
    v.push(p4);
    v.push(p5);
    v.push(p6);
    v.push(p7);
    assert(pats_view(v@) =~= seq![p0@, p1@, p2@, p3@, p4@, p5@, p6@, p7@]);
    v
}

fn pats9(p0: Pat, p1: Pat, p2: Pat, p3: Pat, p4: Pat, p5: Pat, p6: Pat, p7: Pat, p8: Pat) -> (v: Vec<Pat>)
    ensures
        pats_view(v@) == seq![p0@, p1@, p2@, p3@, p4@, p5@, p6@, p7@, p8@],
{
    let mut v: Vec<Pat> = Vec::new();
    v.push(p0);
    v.push(p1);
    v.push(p2);
    v.push(p3);
    v.push(p4);
    v.push(p5);
    v.push(p6);
    v.push(p7);
    v.push(p8);
    assert(pats_view(v@) =~= seq![p0@, p1@, p2@, p3@, p4@, p5@, p6@, p7@, p8@]);
    v
}

fn pats10(p0: Pat, p1: Pat, p2: Pat, p3: Pat, p4: Pat, p5: Pat, p6: Pat, p7: Pat, p8: Pat, p9: Pat) -> (v: Vec<Pat>)
    ensures
        pats_view(v@) == seq![p0@, p1@, p2@, p3@, p4@, p5@, p6@, p7@, p8@, p9@],
{
    let mut v: Vec<Pat> = Vec::new();
    v.push(p0);
    v.push(p1);
    v.push(p2);
    v.push(p3);
    v.push(p4);
    v.push(p5);
    v.push(p6);
    v.push(p7);
    v.push(p8);
    v.push(p9);
    assert(pats_view(v@) =~= seq![p0@, p1@, p2@, p3@, p4@, p5@, p6@, p7@, p8@, p9@]);
    v
}

fn pats11(p0: Pat, p1: Pat, p2: Pat, p3: Pat, p4: Pat, p5: Pat, p6: Pat, p7: Pat, p8: Pat, p9: Pat, p10: Pat) -> (v: Vec<Pat>)
    ensures
        pats_view(v@) == seq![p0@, p1@, p2@, p3@, p4@, p5@, p6@, p7@, p8@, p9@, p10@],
{
    let mut v: Vec<Pat> = Vec::new();
    v.push(p0);
    v.push(p1);
    v.push(p2);
    v.push(p3);
    v.push(p4);
    v.push(p5);
    v.push(p6);
    v.push(p7);
    v.push(p8);
    v.push(p9);
    v.push(p10);
    assert(pats_view(v@) =~= seq![p0@, p1@, p2@, p3@, p4@, p5@, p6@, p7@, p8@, p9@, p10@]);
    v
}

fn pats12(p0: Pat, p1: Pat, p2: Pat, p3: Pat, p4: Pat, p5: Pat, p6: Pat, p7: Pat, p8: Pat, p9: Pat, p10: Pat, p11: Pat) -> (v: Vec<Pat>)
    ensures
        pats_view(v@) == seq![p0@, p1@, p2@, p3@, p4@, p5@, p6@, p7@, p8@, p9@, p10@, p11@],
{
    let mut v: Vec<Pat> = Vec::new();
    v.push(p0);
    v.push(p1);
    v.push(p2);
    v.push(p3);
    v.push(p4);
    v.push(p5);
    v.push(p6);
    v.push(p7);
    v.push(p8);
    v.push(p9);
    v.push(p10);
    v.push(p11);
    assert(pats_view(v@) =~= seq![p0@, p1@, p2@, p3@, p4@, p5@, p6@, p7@, p8@, p9@, p10@, p11@]);
    v
}

fn pats25(p0: Pat, p1: Pat, p2: Pat, p3: Pat, p4: Pat, p5: Pat, p6: Pat, p7: Pat, p8: Pat, p9: Pat, p10: Pat, p11: Pat, p12: Pat, p13: Pat, p14: Pat, p15: Pat, p16: Pat, p17: Pat, p18: Pat, p19: Pat, p20: Pat, p21: Pat, p22: Pat, p23: Pat, p24: Pat) -> (v: Vec<Pat>)
    ensures
        pats_view(v@) == seq![p0@, p1@, p2@, p3@, p4@, p5@, p6@, p7@, p8@, p9@, p10@, p11@, p12@, p13@, p14@, p15@, p16@, p17@, p18@, p19@, p20@, p21@, p22@, p23@, p24@],
{
    let mut v: Vec<Pat> = Vec::new();
    v.push(p0);
    v.push(p1);
    v.push(p2);
    v.push(p3);
    v.push(p4);
    v.push(p5);
    v.push(p6);
    v.push(p7);
    v.push(p8);
    v.push(p9);
    v.push(p10);
    v.push(p11);
    v.push(p12);
    v.push(p13);
    v.push(p14);
    v.push(p15);
    v.push(p16);
    v.push(p17);
    v.push(p18);
    v.push(p19);
    v.push(p20);
    v.push(p21);
    v.push(p22);
    v.push(p23);
    v.push(p24);
    assert(pats_view(v@) =~= seq![p0@, p1@, p2@, p3@, p4@, p5@, p6@, p7@, p8@, p9@, p10@, p11@, p12@, p13@, p14@, p15@, p16@, p17@, p18@, p19@, p20@, p21@, p22@, p23@, p24@]);
    v
}

fn ranges1(r0: (u8, u8)) -> (v: Vec<(u8, u8)>)
    ensures
        v@ == seq![r0],
{
    let mut v: Vec<(u8, u8)> = Vec::new();
    v.push(r0);
    assert(v@ =~= seq![r0]);
    v
}

fn ranges3(r0: (u8, u8), r1: (u8, u8), r2: (u8, u8)) -> (v: Vec<(u8, u8)>)
    ensures
        v@ == seq![r0, r1, r2],
{
    let mut v: Vec<(u8, u8)> = Vec::new();
    v.push(r0);
    v.push(r1);
    v.push(r2);
    assert(v@ =~= seq![r0, r1, r2]);
    v
}

fn ranges4(r0: (u8, u8), r1: (u8, u8), r2: (u8, u8), r3: (u8, u8)) -> (v: Vec<(u8, u8)>)
    ensures
        v@ == seq![r0, r1, r2, r3],
{
    let mut v: Vec<(u8, u8)> = Vec::new();
    v.push(r0);
    v.push(r1);
    v.push(r2);
    v.push(r3);
    assert(v@ =~= seq![r0, r1, r2, r3]);
    v
}

fn ranges5(r0: (u8, u8), r1: (u8, u8), r2: (u8, u8), r3: (u8, u8), r4: (u8, u8)) -> (v: Vec<(u8, u8)>)
    ensures
        v@ == seq![r0, r1, r2, r3, r4],
{
    let mut v: Vec<(u8, u8)> = Vec::new();
    v.push(r0);
    v.push(r1);
    v.push(r2);
    v.push(r3);
    v.push(r4);
    assert(v@ =~= seq![r0, r1, r2, r3, r4]);
    v
}

fn ranges7(r0: (u8, u8), r1: (u8, u8), r2: (u8, u8), r3: (u8, u8), r4: (u8, u8), r5: (u8, u8), r6: (u8, u8)) -> (v: Vec<(u8, u8)>)
    ensures
        v@ == seq![r0, r1, r2, r3, r4, r5, r6],
{
    let mut v: Vec<(u8, u8)> = Vec::new();
    v.push(r0);
    v.push(r1);
    v.push(r2);
    v.push(r3);
    v.push(r4);
    v.push(r5);
    v.push(r6);
    assert(v@ =~= seq![r0, r1, r2, r3, r4, r5, r6]);
    v
}

fn lexer_ws() -> (r: Rule)
    ensures
        r@ == lexer_ws_v(),
{
    reveal(lexer_ws_pat_v);
    rule("WS", Some("skip"), plus(class(ranges4((0x20u8, 0x20u8), (0x09u8, 0x09u8), (0x0du8, 0x0du8), (0x0au8, 0x0au8)), false)))
}

fn lexer_line() -> (r: Rule)
    ensures
        r@ == lexer_line_v(),
{
    reveal(lexer_line_pat_v);
    rule("LINE", Some("comment"), cat(pats2(lit("//"), star(cat(pats2(not(lit("\n")), Pat::Any))))))
}

fn lexer_block() -> (r: Rule)
    ensures
        r@ == lexer_block_v(),
{
    reveal(lexer_block_pat_v);
    rule("BLOCK", Some("comment"), cat(pats3(lit("/*"), star(cat(pats2(not(lit("*/")), Pat::Any))), lit("*/"))))
}

fn lexer_ident() -> (r: Rule)
    ensures
        r@ == lexer_ident_v(),
{
    reveal(lexer_ident_pat_v);
    rule("IDENT", None, cat(pats2(
        class(ranges4((0x61u8, 0x7au8), (0x41u8, 0x5au8), (0x5fu8, 0x5fu8), (0x80u8, 0xffu8)), false),
        star(class(ranges5((0x61u8, 0x7au8), (0x41u8, 0x5au8), (0x5fu8, 0x5fu8), (0x30u8, 0x39u8), (0x80u8, 0xffu8)), false)),
    )))
}

fn lexer_lifetime() -> (r: Rule)
    ensures
        r@ == lexer_lifetime_v(),
{
    reveal(lexer_lifetime_pat_v);
    rule("LIFETIME", None, cat(pats3(
        lit("'"),
        class(ranges3((0x61u8, 0x7au8), (0x41u8, 0x5au8), (0x5fu8, 0x5fu8)), false),
        star(class(ranges4((0x61u8, 0x7au8), (0x41u8, 0x5au8), (0x5fu8, 0x5fu8), (0x30u8, 0x39u8)), false)),
    )))
}

fn lexer_char() -> (r: Rule)
    ensures
        r@ == lexer_char_v(),
{
    reveal(lexer_char_pat_v);
    rule("CHAR", None, cat(pats4(
        opt(lit("b")),
        lit("'"),
        alt(pats2(
            cat(pats3(lit("\\"), Pat::Any, star(cat(pats2(not(lit("'")), Pat::Any))))),
            cat(pats2(
                cat(pats2(not(lit("'")), Pat::Any)),
                star(class(ranges1((0x80u8, 0xbfu8)), false)),
            )),
        )),
        lit("'"),
    )))
}

fn lexer_string() -> (r: Rule)
    ensures
        r@ == lexer_string_v(),
{
    reveal(lexer_string_pat_v);
    rule("STRING", None, cat(pats4(
        opt(lit("b")),
        lit("\""),
        star(alt(pats2(cat(pats2(lit("\\"), Pat::Any)), cat(pats2(not(lit("\"")), Pat::Any))))),
        lit("\""),
    )))
}

fn lexer_raw() -> (r: Rule)
    ensures
        r@ == lexer_raw_v(),
{
    reveal(lexer_raw_pat_v);
    rule("RAW", None, cat(pats3(
        opt(lit("b")),
        lit("r"),
        alt(pats2(
            cat(pats3(
                lit("#\""),
                star(cat(pats2(not(lit("\"#")), Pat::Any))),
                lit("\"#"),
            )),
            cat(pats3(lit("\""), star(cat(pats2(not(lit("\"")), Pat::Any))), lit("\""))),
        )),
    )))
}

fn lexer_number() -> (r: Rule)
    ensures
        r@ == lexer_number_v(),
{
    reveal(lexer_number_pat_v);
    rule("NUMBER", None, cat(pats3(
        class(ranges1((0x30u8, 0x39u8)), false),
        star(class(ranges4((0x61u8, 0x7au8), (0x41u8, 0x5au8), (0x5fu8, 0x5fu8), (0x30u8, 0x39u8)), false)),
        opt(cat(pats3(
            lit("."),
            class(ranges1((0x30u8, 0x39u8)), false),
            star(class(ranges4((0x61u8, 0x7au8), (0x41u8, 0x5au8), (0x5fu8, 0x5fu8), (0x30u8, 0x39u8)), false)),
        ))),
    )))
}

fn lexer_punct() -> (r: Rule)
    ensures
        r@ == lexer_punct_v(),
{
    reveal(lexer_punct_pat_v);
    rule("PUNCT", None, class(ranges7((0x21u8, 0x21u8), (0x23u8, 0x26u8), (0x28u8, 0x2fu8), (0x3au8, 0x40u8), (0x5bu8, 0x5bu8), (0x5du8, 0x5eu8), (0x7bu8, 0x7eu8)), false))
}

fn parser_keyword() -> (r: Rule)
    ensures
        r@ == parser_keyword_v(),
{
    reveal(parser_keyword_pat_v);
    rule("keyword", None, alt(pats25(
        lit("let"),
        lit("if"),
        lit("else"),
        lit("for"),
        lit("while"),
        lit("loop"),
        lit("match"),
        lit("fn"),
        lit("struct"),
        lit("enum"),
        lit("impl"),
        lit("trait"),
        lit("mod"),
        lit("use"),
        lit("pub"),
        lit("const"),
        lit("static"),
        lit("type"),
        lit("where"),
        lit("unsafe"),
        lit("async"),
        lit("move"),
        lit("in"),
        lit("extern"),
        lit("dyn"),
    )))
}

fn parser_unit() -> (r: Rule)
    ensures
        r@ == parser_unit_v(),
{
    reveal(parser_unit_pat_v);
    rule("unit", None, alt(pats2(name("item"), name("attr"))))
}

fn parser_tt() -> (r: Rule)
    ensures
        r@ == parser_tt_v(),
{
    reveal(parser_tt_pat_v);
    rule("tt", None, alt(pats4(
        cat(pats3(lit("("), star(name("tt")), lit(")"))),
        cat(pats3(lit("["), star(name("tt")), lit("]"))),
        cat(pats3(lit("{"), star(name("tt")), lit("}"))),
        cat(pats2(not(alt(pats3(lit(")"), lit("]"), lit("}")))), Pat::Any)),
    )))
}

fn parser_gtt() -> (r: Rule)
    ensures
        r@ == parser_gtt_v(),
{
    reveal(parser_gtt_pat_v);
    rule("gtt", None, alt(pats5(
        cat(pats2(lit("-"), lit(">"))),
        cat(pats3(lit("<"), star(name("gtt")), lit(">"))),
        cat(pats3(lit("("), star(name("tt")), lit(")"))),
        cat(pats3(lit("["), star(name("tt")), lit("]"))),
        cat(pats2(
            not(alt(pats6(lit(">"), lit("{"), lit("}"), lit(";"), lit(")"), lit("]")))),
            Pat::Any,
        )),
    )))
}

fn parser_attr() -> (r: Rule)
    ensures
        r@ == parser_attr_v(),
{
    reveal(parser_attr_pat_v);
    rule("attr", None, cat(pats5(lit("#"), opt(lit("!")), lit("["), star(name("tt")), lit("]"))))
}

fn parser_vis() -> (r: Rule)
    ensures
        r@ == parser_vis_v(),
{
    reveal(parser_vis_pat_v);
    rule("vis", None, cat(pats2(lit("pub"), opt(cat(pats3(lit("("), star(name("tt")), lit(")")))))))
}

fn parser_item() -> (r: Rule)
    ensures
        r@ == parser_item_v(),
{
    reveal(parser_item_pat_v);
    rule("item", Some("item"), cat(pats3(
        star(name("attr")),
        opt(name("vis")),
        alt(pats11(
            name("func"),
            name("strukt"),
            name("enumer"),
            name("trait"),
            name("imp"),
            name("uses"),
            name("module"),
            name("konst"),
            name("alias"),
            name("mac"),
            name("ext"),
        )),
    )))
}

fn parser_name() -> (r: Rule)
    ensures
        r@ == parser_name_v(),
{
    reveal(parser_name_pat_v);
    rule("name", Some("word"), cat(pats2(not(name("keyword")), name("IDENT"))))
}

fn parser_generics() -> (r: Rule)
    ensures
        r@ == parser_generics_v(),
{
    reveal(parser_generics_pat_v);
    rule("generics", None, cat(pats3(lit("<"), star(name("gtt")), lit(">"))))
}

fn parser_qual() -> (r: Rule)
    ensures
        r@ == parser_qual_v(),
{
    reveal(parser_qual_pat_v);
    rule("qual", None, alt(pats4(
        lit("const"),
        lit("async"),
        lit("unsafe"),
        cat(pats2(lit("extern"), opt(name("STRING")))),
    )))
}

fn parser_func() -> (r: Rule)
    ensures
        r@ == parser_func_v(),
{
    reveal(parser_func_pat_v);
    rule("func", None, cat(pats10(
        star(name("qual")),
        lit("fn"),
        name("name"),
        opt(name("generics")),
        lit("("),
        opt(cat(pats3(
            name("param"),
            star(cat(pats2(lit(","), name("param")))),
            opt(lit(",")),
        ))),
        lit(")"),
        opt(cat(pats2(cat(pats2(lit("-"), lit(">"))), name("type")))),
        opt(name("where")),
        alt(pats2(name("body"), lit(";"))),
    )))
}

fn parser_param() -> (r: Rule)
    ensures
        r@ == parser_param_v(),
{
    reveal(parser_param_pat_v);
    rule("param", None, alt(pats2(
        cat(pats6(
            star(name("attr")),
            opt(lit("&")),
            opt(name("LIFETIME")),
            opt(lit("mut")),
            lit("self"),
            opt(cat(pats2(lit(":"), name("type")))),
        )),
        cat(pats4(star(name("attr")), name("pat"), lit(":"), name("type"))),
    )))
}

fn parser_type() -> (r: Rule)
    ensures
        r@ == parser_type_v(),
{
    reveal(parser_type_pat_v);
    rule("type", None, plus(name("tyatom")))
}

fn parser_tyatom() -> (r: Rule)
    ensures
        r@ == parser_tyatom_v(),
{
    reveal(parser_tyatom_pat_v);
    rule("tyatom", None, alt(pats12(
        cat(pats2(lit("-"), lit(">"))),
        cat(pats2(lit(":"), lit(":"))),
        cat(pats3(lit("<"), star(name("gtt")), lit(">"))),
        cat(pats3(lit("("), star(name("tt")), lit(")"))),
        cat(pats3(lit("["), star(name("tt")), lit("]"))),
        cat(pats2(not(alt(pats2(lit("for"), lit("where")))), name("IDENT"))),
        name("LIFETIME"),
        lit("&"),
        lit("*"),
        lit("!"),
        lit("+"),
        lit("?"),
    )))
}

fn parser_where() -> (r: Rule)
    ensures
        r@ == parser_where_v(),
{
    reveal(parser_where_pat_v);
    rule("where", None, cat(pats2(
        lit("where"),
        star(alt(pats4(
            cat(pats3(lit("<"), star(name("gtt")), lit(">"))),
            cat(pats3(lit("("), star(name("tt")), lit(")"))),
            cat(pats3(lit("["), star(name("tt")), lit("]"))),
            cat(pats2(not(alt(pats3(lit("{"), lit(";"), lit("}")))), Pat::Any)),
        ))),
    )))
}

fn parser_body() -> (r: Rule)
    ensures
        r@ == parser_body_v(),
{
    reveal(parser_body_pat_v);
    rule("body", Some("scope"), cat(pats3(lit("{"), star(name("stmt")), lit("}"))))
}

fn parser_block() -> (r: Rule)
    ensures
        r@ == parser_block_v(),
{
    reveal(parser_block_pat_v);
    rule("block", Some("scope"), cat(pats3(lit("{"), star(name("stmt")), lit("}"))))
}

fn parser_stmt() -> (r: Rule)
    ensures
        r@ == parser_stmt_v(),
{
    reveal(parser_stmt_pat_v);
    rule("stmt", None, alt(pats5(
        lit(";"),
        name("binding"),
        name("item"),
        cat(pats3(name("blocky"), not(alt(pats2(lit("."), lit("?")))), opt(lit(";")))),
        cat(pats2(name("expr"), opt(lit(";")))),
    )))
}

fn parser_binding() -> (r: Rule)
    ensures
        r@ == parser_binding_v(),
{
    reveal(parser_binding_pat_v);
    rule("binding", None, cat(pats6(
        lit("let"),
        name("pat"),
        opt(cat(pats2(lit(":"), name("type")))),
        opt(cat(pats2(lit("="), name("expr")))),
        opt(cat(pats2(lit("else"), name("block")))),
        lit(";"),
    )))
}

fn parser_path() -> (r: Rule)
    ensures
        r@ == parser_path_v(),
{
    reveal(parser_path_pat_v);
    rule("path", None, cat(pats3(
        opt(cat(pats2(lit(":"), lit(":")))),
        cat(pats2(not(name("keyword")), name("IDENT"))),
        star(cat(pats2(
            cat(pats2(lit(":"), lit(":"))),
            alt(pats2(
                cat(pats2(not(name("keyword")), name("IDENT"))),
                cat(pats3(lit("<"), star(name("gtt")), lit(">"))),
            )),
        ))),
    )))
}

fn parser_qpath() -> (r: Rule)
    ensures
        r@ == parser_qpath_v(),
{
    reveal(parser_qpath_pat_v);
    rule("qpath", None, cat(pats2(
        cat(pats2(not(name("keyword")), name("IDENT"))),
        plus(cat(pats2(
            cat(pats2(lit(":"), lit(":"))),
            alt(pats2(
                cat(pats2(not(name("keyword")), name("IDENT"))),
                cat(pats3(lit("<"), star(name("gtt")), lit(">"))),
            )),
        ))),
    )))
}

fn parser_pat() -> (r: Rule)
    ensures
        r@ == parser_pat_v(),
{
    reveal(parser_pat_pat_v);
    rule("pat", None, cat(pats3(opt(lit("|")), name("pat1"), star(cat(pats2(lit("|"), name("pat1")))))))
}

fn parser_pat1() -> (r: Rule)
    ensures
        r@ == parser_pat1_v(),
{
    reveal(parser_pat1_pat_v);
    rule("pat1", None, alt(pats9(
        cat(pats3(lit("&"), opt(lit("mut")), name("pat1"))),
        cat(pats3(
            lit("("),
            opt(cat(pats3(
                name("pat"),
                star(cat(pats2(lit(","), name("pat")))),
                opt(lit(",")),
            ))),
            lit(")"),
        )),
        cat(pats3(
            lit("["),
            opt(cat(pats3(
                name("pat"),
                star(cat(pats2(lit(","), name("pat")))),
                opt(lit(",")),
            ))),
            lit("]"),
        )),
        cat(pats4(
            name("path"),
            lit("("),
            opt(cat(pats3(
                name("pat"),
                star(cat(pats2(lit(","), name("pat")))),
                opt(lit(",")),
            ))),
            lit(")"),
        )),
        name("spat"),
        cat(pats2(lit("."), lit("."))),
        cat(pats2(
            alt(pats4(
                name("NUMBER"),
                name("STRING"),
                name("CHAR"),
                cat(pats2(lit("-"), name("NUMBER"))),
            )),
            opt(cat(pats3(
                cat(pats2(lit("."), lit("."))),
                opt(lit("=")),
                opt(alt(pats2(name("NUMBER"), name("CHAR")))),
            ))),
        )),
        name("qpath"),
        cat(pats4(
            opt(lit("ref")),
            opt(lit("mut")),
            name("name"),
            opt(cat(pats2(lit("@"), name("pat1")))),
        )),
    )))
}

fn parser_spat() -> (r: Rule)
    ensures
        r@ == parser_spat_v(),
{
    reveal(parser_spat_pat_v);
    rule("spat", Some("literal"), cat(pats4(
        name("path"),
        lit("{"),
        opt(cat(pats3(
            alt(pats2(
                cat(pats2(lit("."), lit("."))),
                cat(pats4(
                    opt(lit("ref")),
                    opt(lit("mut")),
                    name("IDENT"),
                    opt(cat(pats2(lit(":"), name("pat")))),
                )),
            )),
            star(cat(pats2(
                lit(","),
                alt(pats2(
                    cat(pats2(lit("."), lit("."))),
                    cat(pats4(
                        opt(lit("ref")),
                        opt(lit("mut")),
                        name("IDENT"),
                        opt(cat(pats2(lit(":"), name("pat")))),
                    )),
                )),
            ))),
            opt(lit(",")),
        ))),
        lit("}"),
    )))
}

fn parser_blocky() -> (r: Rule)
    ensures
        r@ == parser_blocky_v(),
{
    reveal(parser_blocky_pat_v);
    rule("blocky", None, cat(pats2(
        opt(cat(pats2(name("LIFETIME"), lit(":")))),
        alt(pats8(
            name("ifx"),
            name("whilex"),
            name("forx"),
            cat(pats2(lit("loop"), name("block"))),
            name("matchx"),
            cat(pats2(lit("unsafe"), name("block"))),
            cat(pats3(lit("async"), opt(lit("move")), name("block"))),
            name("block"),
        )),
    )))
}

fn parser_cond() -> (r: Rule)
    ensures
        r@ == parser_cond_v(),
{
    reveal(parser_cond_pat_v);
    rule("cond", None, alt(pats2(
        cat(pats4(lit("let"), name("pat"), lit("="), plus(name("catom")))),
        plus(name("catom")),
    )))
}

fn parser_ifx() -> (r: Rule)
    ensures
        r@ == parser_ifx_v(),
{
    reveal(parser_ifx_pat_v);
    rule("ifx", None, cat(pats4(
        lit("if"),
        name("cond"),
        name("block"),
        opt(cat(pats2(lit("else"), alt(pats2(name("ifx"), name("block")))))),
    )))
}

fn parser_whilex() -> (r: Rule)
    ensures
        r@ == parser_whilex_v(),
{
    reveal(parser_whilex_pat_v);
    rule("whilex", None, cat(pats3(lit("while"), name("cond"), name("block"))))
}

fn parser_forx() -> (r: Rule)
    ensures
        r@ == parser_forx_v(),
{
    reveal(parser_forx_pat_v);
    rule("forx", None, cat(pats5(lit("for"), name("pat"), lit("in"), name("cond"), name("block"))))
}

fn parser_matchx() -> (r: Rule)
    ensures
        r@ == parser_matchx_v(),
{
    reveal(parser_matchx_pat_v);
    rule("matchx", None, cat(pats5(lit("match"), name("cond"), lit("{"), star(name("arm")), lit("}"))))
}

fn parser_arm() -> (r: Rule)
    ensures
        r@ == parser_arm_v(),
{
    reveal(parser_arm_pat_v);
    rule("arm", None, cat(pats5(
        star(name("attr")),
        name("pat"),
        opt(cat(pats2(lit("if"), name("expr")))),
        cat(pats2(lit("="), lit(">"))),
        alt(pats2(
            cat(pats2(name("block"), opt(lit(",")))),
            cat(pats2(
                name("expr"),
                alt(pats3(
                    lit(","),
                    cat(pats2(not(lit("}")), not(Pat::Any))),
                    not(not(lit("}"))),
                )),
            )),
        )),
    )))
}

fn parser_closure() -> (r: Rule)
    ensures
        r@ == parser_closure_v(),
{
    reveal(parser_closure_pat_v);
    rule("closure", None, cat(pats4(
        opt(lit("move")),
        alt(pats2(
            cat(pats2(lit("|"), lit("|"))),
            cat(pats3(
                lit("|"),
                opt(cat(pats3(
                    cat(pats2(name("pat"), opt(cat(pats2(lit(":"), name("type")))))),
                    star(cat(pats2(
                        lit(","),
                        cat(pats2(name("pat"), opt(cat(pats2(lit(":"), name("type")))))),
                    ))),
                    opt(lit(",")),
                ))),
                lit("|"),
            )),
        )),
        opt(cat(pats2(cat(pats2(lit("-"), lit(">"))), name("type")))),
        alt(pats2(name("block"), name("expr"))),
    )))
}

fn parser_expr() -> (r: Rule)
    ensures
        r@ == parser_expr_v(),
{
    reveal(parser_expr_pat_v);
    rule("expr", None, alt(pats2(name("closure"), plus(name("atom")))))
}

fn parser_group() -> (r: Rule)
    ensures
        r@ == parser_group_v(),
{
    reveal(parser_group_pat_v);
    rule("group", None, alt(pats2(
        cat(pats3(
            lit("("),
            opt(cat(pats3(
                name("expr"),
                star(cat(pats2(lit(","), name("expr")))),
                opt(lit(",")),
            ))),
            lit(")"),
        )),
        cat(pats4(
            lit("["),
            opt(cat(pats3(
                name("expr"),
                star(cat(pats2(lit(","), name("expr")))),
                opt(lit(",")),
            ))),
            opt(cat(pats2(lit(";"), name("expr")))),
            lit("]"),
        )),
    )))
}

fn parser_mac() -> (r: Rule)
    ensures
        r@ == parser_mac_v(),
{
    reveal(parser_mac_pat_v);
    rule("mac", None, cat(pats4(
        name("path"),
        lit("!"),
        opt(name("IDENT")),
        alt(pats2(
            cat(pats2(
                alt(pats2(
                    cat(pats3(lit("("), star(name("tt")), lit(")"))),
                    cat(pats3(lit("["), star(name("tt")), lit("]"))),
                )),
                opt(lit(";")),
            )),
            cat(pats3(lit("{"), star(name("tt")), lit("}"))),
        )),
    )))
}

fn parser_macx() -> (r: Rule)
    ensures
        r@ == parser_macx_v(),
{
    reveal(parser_macx_pat_v);
    rule("macx", None, cat(pats3(
        name("path"),
        lit("!"),
        alt(pats3(
            cat(pats3(lit("("), star(name("tt")), lit(")"))),
            cat(pats3(lit("["), star(name("tt")), lit("]"))),
            cat(pats3(lit("{"), star(name("tt")), lit("}"))),
        )),
    )))
}

fn parser_slit() -> (r: Rule)
    ensures
        r@ == parser_slit_v(),
{
    reveal(parser_slit_pat_v);
    rule("slit", Some("literal"), cat(pats4(
        name("path"),
        lit("{"),
        opt(cat(pats3(
            alt(pats2(
                cat(pats2(cat(pats2(lit("."), lit("."))), name("expr"))),
                cat(pats2(
                    alt(pats2(name("IDENT"), name("NUMBER"))),
                    opt(cat(pats2(lit(":"), name("expr")))),
                )),
            )),
            star(cat(pats2(
                lit(","),
                alt(pats2(
                    cat(pats2(cat(pats2(lit("."), lit("."))), name("expr"))),
                    cat(pats2(
                        alt(pats2(name("IDENT"), name("NUMBER"))),
                        opt(cat(pats2(lit(":"), name("expr")))),
                    )),
                )),
            ))),
            opt(lit(",")),
        ))),
        lit("}"),
    )))
}

fn parser_atom() -> (r: Rule)
    ensures
        r@ == parser_atom_v(),
{
    reveal(parser_atom_pat_v);
    rule("atom", None, alt(pats12(
        name("blocky"),
        name("macx"),
        name("slit"),
        name("path"),
        name("group"),
        name("NUMBER"),
        name("STRING"),
        name("RAW"),
        name("CHAR"),
        name("LIFETIME"),
        lit("move"),
        name("op"),
    )))
}

fn parser_catom() -> (r: Rule)
    ensures
        r@ == parser_catom_v(),
{
    reveal(parser_catom_pat_v);
    rule("catom", None, alt(pats10(
        name("macx"),
        name("path"),
        name("group"),
        name("NUMBER"),
        name("STRING"),
        name("RAW"),
        name("CHAR"),
        name("LIFETIME"),
        name("op"),
        name("closure"),
    )))
}

fn parser_op() -> (r: Rule)
    ensures
        r@ == parser_op_v(),
{
    reveal(parser_op_pat_v);
    rule("op", None, cat(pats2(
        not(alt(pats9(
            lit("{"),
            lit("}"),
            lit("("),
            lit(")"),
            lit("["),
            lit("]"),
            lit(";"),
            lit(","),
            cat(pats2(lit("="), lit(">"))),
        ))),
        name("PUNCT"),
    )))
}

fn parser_strukt() -> (r: Rule)
    ensures
        r@ == parser_strukt_v(),
{
    reveal(parser_strukt_pat_v);
    rule("strukt", None, cat(pats5(
        lit("struct"),
        name("name"),
        opt(name("generics")),
        opt(name("where")),
        alt(pats3(
            cat(pats3(
                lit("{"),
                opt(cat(pats3(
                    name("field"),
                    star(cat(pats2(lit(","), name("field")))),
                    opt(lit(",")),
                ))),
                lit("}"),
            )),
            cat(pats5(
                lit("("),
                opt(cat(pats3(
                    cat(pats3(star(name("attr")), opt(name("vis")), name("type"))),
                    star(cat(pats2(
                        lit(","),
                        cat(pats3(star(name("attr")), opt(name("vis")), name("type"))),
                    ))),
                    opt(lit(",")),
                ))),
                lit(")"),
                opt(name("where")),
                lit(";"),
            )),
            lit(";"),
        )),
    )))
}

fn parser_field() -> (r: Rule)
    ensures
        r@ == parser_field_v(),
{
    reveal(parser_field_pat_v);
    rule("field", None, cat(pats5(
        star(name("attr")),
        opt(name("vis")),
        name("name"),
        lit(":"),
        name("type"),
    )))
}

fn parser_enumer() -> (r: Rule)
    ensures
        r@ == parser_enumer_v(),
{
    reveal(parser_enumer_pat_v);
    rule("enumer", None, cat(pats7(
        lit("enum"),
        name("name"),
        opt(name("generics")),
        opt(name("where")),
        lit("{"),
        opt(cat(pats3(
            name("variant"),
            star(cat(pats2(lit(","), name("variant")))),
            opt(lit(",")),
        ))),
        lit("}"),
    )))
}

fn parser_variant() -> (r: Rule)
    ensures
        r@ == parser_variant_v(),
{
    reveal(parser_variant_pat_v);
    rule("variant", None, cat(pats4(
        star(name("attr")),
        name("name"),
        opt(alt(pats2(
            cat(pats3(
                lit("{"),
                opt(cat(pats3(
                    name("field"),
                    star(cat(pats2(lit(","), name("field")))),
                    opt(lit(",")),
                ))),
                lit("}"),
            )),
            cat(pats3(
                lit("("),
                opt(cat(pats3(
                    cat(pats3(star(name("attr")), opt(name("vis")), name("type"))),
                    star(cat(pats2(
                        lit(","),
                        cat(pats3(star(name("attr")), opt(name("vis")), name("type"))),
                    ))),
                    opt(lit(",")),
                ))),
                lit(")"),
            )),
        ))),
        opt(cat(pats2(lit("="), name("expr")))),
    )))
}

fn parser_trait() -> (r: Rule)
    ensures
        r@ == parser_trait_v(),
{
    reveal(parser_trait_pat_v);
    rule("trait", None, cat(pats10(
        opt(lit("unsafe")),
        opt(lit("auto")),
        lit("trait"),
        name("name"),
        opt(name("generics")),
        opt(cat(pats2(lit(":"), name("type")))),
        opt(name("where")),
        lit("{"),
        star(name("item")),
        lit("}"),
    )))
}

fn parser_imp() -> (r: Rule)
    ensures
        r@ == parser_imp_v(),
{
    reveal(parser_imp_pat_v);
    rule("imp", None, cat(pats10(
        opt(lit("unsafe")),
        lit("impl"),
        opt(name("generics")),
        opt(lit("!")),
        name("type"),
        opt(cat(pats2(lit("for"), name("type")))),
        opt(name("where")),
        lit("{"),
        star(alt(pats2(name("item"), name("attr")))),
        lit("}"),
    )))
}

fn parser_uses() -> (r: Rule)
    ensures
        r@ == parser_uses_v(),
{
    reveal(parser_uses_pat_v);
    rule("uses", None, cat(pats3(lit("use"), name("utree"), lit(";"))))
}

fn parser_utree() -> (r: Rule)
    ensures
        r@ == parser_utree_v(),
{
    reveal(parser_utree_pat_v);
    rule("utree", None, cat(pats3(
        opt(cat(pats2(lit(":"), lit(":")))),
        star(cat(pats2(name("IDENT"), cat(pats2(lit(":"), lit(":")))))),
        alt(pats3(
            lit("*"),
            cat(pats3(
                lit("{"),
                opt(cat(pats3(
                    name("utree"),
                    star(cat(pats2(lit(","), name("utree")))),
                    opt(lit(",")),
                ))),
                lit("}"),
            )),
            cat(pats2(name("IDENT"), opt(cat(pats2(lit("as"), name("IDENT")))))),
        )),
    )))
}

fn parser_module() -> (r: Rule)
    ensures
        r@ == parser_module_v(),
{
    reveal(parser_module_pat_v);
    rule("module", None, cat(pats3(
        lit("mod"),
        name("name"),
        alt(pats2(
            lit(";"),
            cat(pats3(lit("{"), star(alt(pats2(name("item"), name("attr")))), lit("}"))),
        )),
    )))
}

fn parser_konst() -> (r: Rule)
    ensures
        r@ == parser_konst_v(),
{
    reveal(parser_konst_pat_v);
    rule("konst", None, cat(pats6(
        alt(pats2(lit("const"), cat(pats2(lit("static"), opt(lit("mut")))))),
        alt(pats2(name("name"), lit("_"))),
        lit(":"),
        name("type"),
        opt(cat(pats2(lit("="), name("expr")))),
        lit(";"),
    )))
}

fn parser_alias() -> (r: Rule)
    ensures
        r@ == parser_alias_v(),
{
    reveal(parser_alias_pat_v);
    rule("alias", None, cat(pats7(
        lit("type"),
        name("name"),
        opt(name("generics")),
        opt(cat(pats2(lit(":"), name("type")))),
        opt(name("where")),
        opt(cat(pats2(lit("="), name("type")))),
        lit(";"),
    )))
}

fn parser_ext() -> (r: Rule)
    ensures
        r@ == parser_ext_v(),
{
    reveal(parser_ext_pat_v);
    rule("ext", None, alt(pats2(
        cat(pats5(
            lit("extern"),
            lit("crate"),
            name("IDENT"),
            opt(cat(pats2(lit("as"), name("IDENT")))),
            lit(";"),
        )),
        cat(pats5(
            lit("extern"),
            opt(name("STRING")),
            lit("{"),
            star(name("item")),
            lit("}"),
        )),
    )))
}

fn append(rules: &mut Vec<Rule>, r: Rule)
    ensures
        rules_view(final(rules)@) == rules_view(old(rules)@).push(r@),
{
    rules.push(r);
    assert(rules_view(final(rules)@) =~= rules_view(old(rules)@).push(r@));
}

/// The structural grammar of Rust (also read for TypeScript): lexer rules, whose names start
/// with an upper-case letter, then parser rules. `skip` drops a token, `comment` sets it aside;
/// `scope`, `item`, `literal` and `word` give a node of that kind.
pub fn rules() -> (rules: Vec<Rule>)
    ensures
        rules_view(rules@) == rust_grammar(),
{
    let mut rules: Vec<Rule> = Vec::new();
    assert(rules_view(rules@) =~= Seq::<RuleV>::empty());
    append(&mut rules, lexer_ws());
    append(&mut rules, lexer_line());
    append(&mut rules, lexer_block());
    append(&mut rules, lexer_ident());
    append(&mut rules, lexer_lifetime());
    append(&mut rules, lexer_char());
    append(&mut rules, lexer_string());
    append(&mut rules, lexer_raw());
    append(&mut rules, lexer_number());
    append(&mut rules, lexer_punct());
    append(&mut rules, parser_keyword());
    append(&mut rules, parser_unit());
    append(&mut rules, parser_tt());
    append(&mut rules, parser_gtt());
    append(&mut rules, parser_attr());
    append(&mut rules, parser_vis());
    append(&mut rules, parser_item());
    append(&mut rules, parser_name());
    append(&mut rules, parser_generics());
    append(&mut rules, parser_qual());
    append(&mut rules, parser_func());
    append(&mut rules, parser_param());
    append(&mut rules, parser_type());
    append(&mut rules, parser_tyatom());
    append(&mut rules, parser_where());
    append(&mut rules, parser_body());
    append(&mut rules, parser_block());
    append(&mut rules, parser_stmt());
    append(&mut rules, parser_binding());
    append(&mut rules, parser_path());
    append(&mut rules, parser_qpath());
    append(&mut rules, parser_pat());
    append(&mut rules, parser_pat1());
    append(&mut rules, parser_spat());
    append(&mut rules, parser_blocky());
    append(&mut rules, parser_cond());
    append(&mut rules, parser_ifx());
    append(&mut rules, parser_whilex());
    append(&mut rules, parser_forx());
    append(&mut rules, parser_matchx());
    append(&mut rules, parser_arm());
    append(&mut rules, parser_closure());
    append(&mut rules, parser_expr());
    append(&mut rules, parser_group());
    append(&mut rules, parser_mac());
    append(&mut rules, parser_macx());
    append(&mut rules, parser_slit());
    append(&mut rules, parser_atom());
    append(&mut rules, parser_catom());
    append(&mut rules, parser_op());
    append(&mut rules, parser_strukt());
    append(&mut rules, parser_field());
    append(&mut rules, parser_enumer());
    append(&mut rules, parser_variant());
    append(&mut rules, parser_trait());
    append(&mut rules, parser_imp());
    append(&mut rules, parser_uses());
    append(&mut rules, parser_utree());
    append(&mut rules, parser_module());
    append(&mut rules, parser_konst());
    append(&mut rules, parser_alias());
    append(&mut rules, parser_ext());
    rules
}

} // verus!
