//! Curly brackets in listings. A listing counts the blocks that are open
//! as it is made; that count is the number of brackets that its text has
//! open, so a listing that is made at all is written with as many
//! opening as closing brackets.

use vstd::prelude::*;
use crate::arg::wrapped;
use crate::brackets::{
    lemma_add, lemma_add3, lemma_decimal, lemma_fixed, lemma_hex, lemma_joined, lemma_one,
    lemma_plain, lemma_signed, level, open_brackets, weight,
};
use crate::listing::{
    bind_text, body_text, bool_text, call_arguments, call_text, case_word, indentation, infix,
    is_case_head, is_closer, is_opener, is_statement, known_method, listed, run, step,
    without_third, Listing,
};
use crate::opcode::Opcode;
use crate::symbol::{Symbol, Trigger};
use crate::text::{
    binary, decimal, hex_digit, hex_digit_lower, hex_lower, hex_padded, hex_upper, joined,
    signed_decimal, zeros,
};
use crate::types::Type;

verus! {

/// Whether the blocks that a listing counts as open are the brackets
/// that its text has open.
pub open spec fn counted(st: Listing) -> bool {
    open_brackets(st.text) == st.level
}

proof fn lemma_push(s: Seq<char>, c: char)
    ensures
        open_brackets(s.push(c)) == open_brackets(s) + weight(c),
{
    assert(s.push(c) =~= s + seq![c]);
    lemma_add(s, seq![c]);
    lemma_one(c);
}

proof fn lemma_hex_lower(n: nat)
    ensures
        level(hex_lower(n)),
    decreases n,
{
    if n < 16 {
        lemma_one(hex_digit_lower(n));
    } else {
        lemma_hex_lower(n / 16);
        lemma_push(hex_lower(n / 16), hex_digit_lower(n % 16));
    }
}

proof fn lemma_binary(n: nat)
    ensures
        level(binary(n)),
    decreases n,
{
    if n < 2 {
        lemma_one(hex_digit(n));
    } else {
        lemma_binary(n / 2);
        lemma_push(binary(n / 2), hex_digit(n % 2));
    }
}

proof fn lemma_hex_padded(n: nat, width: nat)
    ensures
        level(hex_padded(n, width)),
{
    lemma_hex(n);
    let digits = hex_upper(n);
    if digits.len() < width {
        lemma_plain(zeros((width - digits.len()) as nat));
        lemma_add(zeros((width - digits.len()) as nat), digits);
    }
}

proof fn lemma_indentation(n: nat)
    ensures
        level(indentation(n)),
    decreases n,
{
    if n > 0 {
        reveal_strlit("    ");
        lemma_plain("    "@);
        lemma_indentation((n - 1) as nat);
        lemma_add(indentation((n - 1) as nat), "    "@);
    }
}

/// A word in front of a text without brackets adds none.
proof fn lemma_named(word: Seq<char>, rest: Seq<char>)
    requires
        forall|i: int| 0 <= i < word.len() ==> word[i] != '{' && word[i] != '}',
        level(rest),
    ensures
        level(word + rest),
{
    lemma_plain(word);
    lemma_add(word, rest);
}

proof fn lemma_trigger(t: Trigger)
    ensures
        level(t.name()),
{
    reveal_strlit("stand_on");
    reveal_strlit("above_floor");
    reveal_strlit("interact_floor");
    reveal_strlit("jump");
    reveal_strlit("touch_wall");
    reveal_strlit("push_wall");
    reveal_strlit("interact_wall");
    reveal_strlit("hammer_wall");
    reveal_strlit("bomb");
    reveal_strlit("gameflag_change");
    reveal_strlit("areaflag_change");
    lemma_plain(t.name());
}

/// An operand is written without a bracket, in each of the three ways.
proof fn lemma_shown(sym: Symbol)
    ensures
        level(sym.shown()),
        level(sym.shown_hex()),
        level(sym.shown_binary()),
{
    reveal_strlit("unknown_");
    reveal_strlit("arr_");
    reveal_strlit("STORY_PROGRESS");
    reveal_strlit("MAP_LOCATION");
    reveal_strlit("global_");
    reveal_strlit("area_");
    reveal_strlit("global_flag_");
    reveal_strlit("area_flag_");
    reveal_strlit("map_flag_");
    reveal_strlit("bool_");
    reveal_strlit("map_");
    reveal_strlit("var_");
    reveal_strlit("dump_");
    reveal_strlit("0x");
    reveal_strlit("0b");
    match sym {
        Symbol::Unknown(ptr) => {
            lemma_hex_lower(wrapped(ptr as int));
            lemma_named("unknown_"@, hex_lower(wrapped(ptr as int)));
        },
        Symbol::Float(value) => {
            lemma_signed(value.raw as int / 1024);
            lemma_fixed(value.raw as int);
        },
        Symbol::FlagArray(index) => {
            lemma_signed(index as int);
            lemma_named("arr_"@, signed_decimal(index as int));
        },
        Symbol::Array(index) => {
            lemma_signed(index as int);
            lemma_named("arr_"@, signed_decimal(index as int));
        },
        Symbol::GameByte(index) => {
            lemma_plain("STORY_PROGRESS"@);
            lemma_plain("MAP_LOCATION"@);
            lemma_decimal(index as nat);
            lemma_named("global_"@, decimal(index as nat));
        },
        Symbol::AreaByte(index) => {
            lemma_signed(index as int);
            lemma_named("area_"@, signed_decimal(index as int));
        },
        Symbol::GameFlag(index) => {
            lemma_signed(index as int);
            lemma_named("global_flag_"@, signed_decimal(index as int));
        },
        Symbol::AreaFlag(index) => {
            lemma_signed(index as int);
            lemma_named("area_flag_"@, signed_decimal(index as int));
        },
        Symbol::MapFlag(index) => {
            lemma_signed(index as int);
            lemma_named("map_flag_"@, signed_decimal(index as int));
        },
        Symbol::Flag(index) => {
            lemma_hex_lower(wrapped(index as int));
            lemma_named("bool_"@, hex_lower(wrapped(index as int)));
        },
        Symbol::MapVar(index) => {
            lemma_hex_lower(wrapped(index as int));
            lemma_named("map_"@, hex_lower(wrapped(index as int)));
        },
        Symbol::Var(index) => {
            lemma_hex_lower(wrapped(index as int));
            lemma_named("var_"@, hex_lower(wrapped(index as int)));
        },
        Symbol::Primitive(value) => {
            lemma_signed(value as int);
            lemma_hex_padded(wrapped(value as int), 8);
            lemma_named("0x"@, hex_padded(wrapped(value as int), 8));
            lemma_binary(wrapped(value as int));
            lemma_named("0b"@, binary(wrapped(value as int)));
        },
        Symbol::Pointer(offset) => {
            lemma_hex_lower(offset as nat);
            lemma_named("dump_"@, hex_lower(offset as nat));
        },
        Symbol::Trigger(trigger) => {
            lemma_trigger(trigger);
        },
    }
}

proof fn lemma_bool_text(b: bool)
    ensures
        level(bool_text(b)),
{
    reveal_strlit("true");
    reveal_strlit("false");
    lemma_plain(bool_text(b));
}

proof fn lemma_infix(opcode: Opcode)
    ensures
        level(infix(opcode)),
{
    reveal_strlit(" == ");
    reveal_strlit(" != ");
    reveal_strlit(" < ");
    reveal_strlit(" > ");
    reveal_strlit(" <= ");
    reveal_strlit(" >= ");
    reveal_strlit(" !& ");
    reveal_strlit(" & ");
    reveal_strlit(" = ");
    reveal_strlit(" += ");
    reveal_strlit(" -= ");
    reveal_strlit(" *= ");
    reveal_strlit(" /= ");
    reveal_strlit(" %= ");
    lemma_plain(infix(opcode));
}

proof fn lemma_case_word(opcode: Opcode)
    ensures
        level(case_word(opcode)),
{
    reveal_strlit("case == ");
    reveal_strlit("case != ");
    reveal_strlit("case < ");
    reveal_strlit("case > ");
    reveal_strlit("case <= ");
    reveal_strlit("case or == ");
    reveal_strlit("case and == ");
    reveal_strlit("case & ");
    reveal_strlit("case ");
    reveal_strlit("default");
    lemma_plain(case_word(opcode));
}

/// The bracket that ends the head of a block.
proof fn lemma_opening()
    ensures
        open_brackets(" {"@) == 1,
{
    reveal_strlit(" {");
    assert(" {"@ =~= seq![' '] + seq!['{']);
    lemma_add(seq![' '], seq!['{']);
    lemma_one(' ');
    lemma_one('{');
}

/// Two operands with a word between them, after a word and before a
/// text.
proof fn lemma_sides(
    head: Seq<char>,
    a: Seq<char>,
    between: Seq<char>,
    b: Seq<char>,
    tail: Seq<char>,
)
    requires
        level(head),
        level(a),
        level(between),
        level(b),
    ensures
        open_brackets(head + a + between + b + tail) == open_brackets(tail),
{
    lemma_add3(head, a, between);
    lemma_add3(head + a + between, b, tail);
}

/// The line of an operation has one bracket open if the operation opens
/// a block or a switch, and none else.
proof fn lemma_body(opcode: Opcode, args: Seq<Symbol>)
    ensures
        body_text(opcode, args) matches Ok(body) ==> open_brackets(body) == (if is_opener(opcode)
            || opcode == Opcode::Switch || opcode == Opcode::SwitchConst {
            1int
        } else {
            0int
        }),
{
    reveal_strlit("return");
    reveal_strlit("label .o");
    reveal_strlit("goto .o");
    reveal_strlit("break loop");
    reveal_strlit("break case");
    reveal_strlit("sleep ");
    reveal_strlit(" secs");
    reveal_strlit("kill ");
    reveal_strlit("arr = ");
    reveal_strlit(" = ");
    reveal_strlit("loop {");
    reveal_strlit("loop ");
    reveal_strlit("if ");
    reveal_strlit("thread {");
    reveal_strlit("switch ");
    reveal_strlit("default");
    reveal_strlit("case ");
    reveal_strlit("..");
    reveal_strlit("");
    let empty = Seq::<char>::empty();
    lemma_shown(args[0]);
    lemma_shown(args[1]);
    lemma_infix(opcode);
    lemma_case_word(opcode);
    lemma_opening();
    lemma_plain("return"@);
    lemma_plain("label .o"@);
    lemma_plain("goto .o"@);
    lemma_plain("break loop"@);
    lemma_plain("break case"@);
    lemma_plain("sleep "@);
    lemma_plain(" secs"@);
    lemma_plain("kill "@);
    lemma_plain("arr = "@);
    lemma_plain(" = "@);
    lemma_plain("loop "@);
    lemma_plain("if "@);
    lemma_plain("switch "@);
    lemma_plain("default"@);
    lemma_plain("case "@);
    lemma_plain(".."@);
    match opcode {
        Opcode::Label => {
            lemma_add("label .o"@, args[0].shown());
        },
        Opcode::Goto => {
            lemma_add("goto .o"@, args[0].shown());
        },
        Opcode::Wait => {
            lemma_add("sleep "@, args[0].shown());
        },
        Opcode::WaitSeconds => {
            lemma_add3("sleep "@, args[0].shown(), " secs"@);
        },
        Opcode::Kill => {
            lemma_add("kill "@, args[0].shown());
        },
        Opcode::UseArray | Opcode::UseFlagArray => {
            lemma_add("arr = "@, args[0].shown_hex());
        },
        Opcode::SetInt | Opcode::SetFloat => {
            match args[1] {
                Symbol::Primitive(v) => {
                    lemma_bool_text(v == 1);
                    lemma_add3(args[0].shown(), " = "@, bool_text(v == 1));
                },
                _ => {},
            }
            lemma_add3(args[0].shown(), " = "@, args[1].shown());
        },
        Opcode::AddInt | Opcode::AddFloat | Opcode::SubInt | Opcode::SubFloat | Opcode::MulInt
        | Opcode::MulFloat | Opcode::DivInt | Opcode::DivFloat | Opcode::ModInt => {
            lemma_add3(args[0].shown(), infix(opcode), args[1].shown());
        },
        Opcode::Loop => {
            assert("loop {"@ =~= "loop"@ + " {"@) by {
                reveal_strlit("loop");
                reveal_strlit(" {");
            }
            reveal_strlit("loop");
            lemma_plain("loop"@);
            lemma_add("loop"@, " {"@);
            lemma_add3("loop "@, args[0].shown(), " {"@);
        },
        Opcode::IfAndNz | Opcode::IfAndZ => {
            lemma_sides("if "@, args[0].shown_binary(), infix(opcode), args[1].shown_binary(), " {"@);
        },
        Opcode::IfEq | Opcode::IfNe | Opcode::IfLt | Opcode::IfGt | Opcode::IfLte | Opcode::IfGte => {
            lemma_sides("if "@, args[0].shown(), infix(opcode), args[1].shown(), " {"@);
        },
        Opcode::Thread => {
            assert("thread {"@ =~= "thread"@ + " {"@) by {
                reveal_strlit("thread");
                reveal_strlit(" {");
            }
            reveal_strlit("thread");
            lemma_plain("thread"@);
            lemma_add("thread"@, " {"@);
        },
        Opcode::Switch | Opcode::SwitchConst => {
            lemma_add3("switch "@, args[0].shown(), " {"@);
        },
        Opcode::CaseRange => {
            lemma_add3("case "@, args[0].shown(), ".."@);
            lemma_add("case "@ + args[0].shown() + ".."@, args[1].shown());
        },
        Opcode::CaseEq | Opcode::CaseNe | Opcode::CaseLt | Opcode::CaseGt | Opcode::CaseLte
        | Opcode::CaseGte | Opcode::CaseOrEq | Opcode::CaseAndEq | Opcode::CaseAndZ => {
            lemma_add(case_word(opcode), args[0].shown());
        },
        _ => {},
    }
}

/// The arguments of a call are written without a bracket.
proof fn lemma_call_arguments(
    opcode: Opcode,
    addr: u32,
    sig: Option<Seq<Type>>,
    args: Seq<Symbol>,
    n: nat,
)
    ensures
        call_arguments(opcode, addr, sig, args, n) matches Ok(written) ==> forall|i: int|
            0 <= i < written.len() ==> level(#[trigger] written[i]),
    decreases n,
{
    if !(n == 0 || n > args.len()) {
        lemma_call_arguments(opcode, addr, sig, args, (n - 1) as nat);
        lemma_shown(args[n - 1]);
        match args[n - 1] {
            Symbol::Primitive(v) => {
                lemma_bool_text(v == 1);
            },
            _ => {},
        }
    }
}

proof fn lemma_known_method(addr: u32)
    ensures
        known_method(addr) matches Some((name, _)) ==> level(name),
{
    reveal_strlit("enter_walk");
    reveal_strlit("model_set_vis");
    reveal_strlit("cam_set_flag2");
    reveal_strlit("cam_set_flag80");
    reveal_strlit("cam_set_perspective");
    reveal_strlit("cam_set_viewport");
    reveal_strlit("cam_set_bg_color");
    reveal_strlit("cam_set_flag4");
    reveal_strlit("use_sprite_shading");
    match known_method(addr) {
        Some((name, _)) => {
            lemma_plain(name);
        },
        None => {},
    }
}

/// A call is written without a curly bracket.
proof fn lemma_call_text(opcode: Opcode, target: Symbol, args: Seq<Symbol>)
    ensures
        call_text(opcode, target, args) matches Ok(call) ==> level(call),
{
    reveal_strlit("enter_walk(var_0)\n");
    reveal_strlit("0x");
    reveal_strlit("(");
    reveal_strlit(", ");
    reveal_strlit(")\n");
    lemma_plain("enter_walk(var_0)\n"@);
    lemma_plain("0x"@);
    lemma_plain("("@);
    lemma_plain(", "@);
    lemma_plain(")\n"@);
    lemma_shown(target);
    match call_text(opcode, target, args) {
        Ok(call) => {
            match target {
                Symbol::Primitive(v) => {
                    let addr = wrapped(v as int) as u32;
                    if addr != 0x8028_5960 {
                        let known = known_method(addr);
                        let sig = match known {
                            Some((_, types)) => Some(types),
                            None => None,
                        };
                        let name = match known {
                            Some((name, _)) => name,
                            None => "0x"@ + hex_upper(addr as nat),
                        };
                        lemma_known_method(addr);
                        lemma_hex(addr as nat);
                        lemma_add("0x"@, hex_upper(addr as nat));
                        lemma_call_arguments(opcode, addr, sig, args, args.len());
                        let written = call_arguments(opcode, addr, sig, args, args.len()).unwrap();
                        lemma_joined(written, ", "@);
                        lemma_add3(name, "("@, joined(written, ", "@));
                        lemma_add(name + "("@ + joined(written, ", "@), ")\n"@);
                    }
                },
                _ => {
                    lemma_call_arguments(opcode, 0, None, args, args.len());
                    let written = call_arguments(opcode, 0, None, args, args.len()).unwrap();
                    lemma_joined(written, ", "@);
                    lemma_add3(target.shown_hex(), "("@, joined(written, ", "@));
                    lemma_add(target.shown_hex() + "("@ + joined(written, ", "@), ")\n"@);
                },
            }
        },
        Err(e) => {},
    }
}

/// A binding is written without a curly bracket.
proof fn lemma_bind_text(args: Seq<Symbol>)
    ensures
        bind_text(args) matches Ok(body) ==> level(body),
{
    reveal_strlit("bind_");
    reveal_strlit("(");
    reveal_strlit(", ");
    reveal_strlit(")");
    reveal_strlit(" = ");
    lemma_plain("bind_"@);
    lemma_plain("("@);
    lemma_plain(", "@);
    lemma_plain(")"@);
    lemma_plain(" = "@);
    let trigger = match args[1] {
        Symbol::Primitive(value) => match Trigger::with_code(wrapped(value as int) as u32) {
            Some(t) => Symbol::Trigger(t),
            None => args[1],
        },
        other => other,
    };
    lemma_shown(trigger);
    lemma_shown(args[0]);
    lemma_shown(args[2]);
    lemma_shown(args[4]);
    let call = "bind_"@ + trigger.shown() + "("@ + args[0].shown_hex() + ", "@ + args[2].shown()
        + ")"@;
    lemma_add3("bind_"@, trigger.shown(), "("@);
    lemma_add3("bind_"@ + trigger.shown() + "("@, args[0].shown_hex(), ", "@);
    lemma_add3(
        "bind_"@ + trigger.shown() + "("@ + args[0].shown_hex() + ", "@,
        args[2].shown(),
        ")"@,
    );
    assert(level(call));
    lemma_add3(args[4].shown_hex(), " = "@, call);
}

/// More text adds its brackets to those of the listing.
proof fn lemma_raw(st: Listing, more: Seq<char>)
    ensures
        open_brackets(st.raw(more).text) == open_brackets(st.text) + open_brackets(more),
        st.raw(more).level == st.level,
        st.raw(more).in_case == st.in_case,
{
    lemma_add(st.text, more);
}

/// A line adds the brackets of its body to those of the listing.
proof fn lemma_line(st: Listing, body: Seq<char>)
    ensures
        open_brackets(st.line(body).text) == open_brackets(st.text) + open_brackets(body),
        st.line(body).level == st.level,
        st.line(body).in_case == st.in_case,
{
    reveal_strlit("\n");
    lemma_plain("\n"@);
    lemma_indentation(st.level);
    lemma_add3(indentation(st.level), body, "\n"@);
    lemma_raw(st, indentation(st.level) + body + "\n"@);
}

/// Opening the arm whose head was written last keeps the count.
proof fn lemma_leave_case(st: Listing)
    requires
        counted(st),
    ensures
        counted(st.leave_case()),
        !st.leave_case().in_case,
{
    if st.in_case {
        reveal_strlit(" {\n");
        assert(" {\n"@ =~= seq![' '] + seq!['{'] + seq!['\n']);
        lemma_add3(seq![' '], seq!['{'], seq!['\n']);
        lemma_one(' ');
        lemma_one('{');
        lemma_one('\n');
        lemma_raw(st, " {\n"@);
    }
}

/// A closing bracket on a line of its own.
proof fn lemma_closing()
    ensures
        open_brackets("}"@) == -1,
        open_brackets("} else {"@) == 0,
        open_brackets("{}\n"@) == 0,
{
    reveal_strlit("}");
    reveal_strlit("} else {");
    reveal_strlit("{}\n");
    reveal_strlit(" else ");
    assert("}"@ =~= seq!['}']);
    lemma_one('}');
    lemma_one('{');
    lemma_one('\n');
    lemma_plain(" else "@);
    assert("} else {"@ =~= seq!['}'] + " else "@ + seq!['{']);
    lemma_add3(seq!['}'], " else "@, seq!['{']);
    assert("{}\n"@ =~= seq!['{'] + seq!['}'] + seq!['\n']);
    lemma_add3(seq!['{'], seq!['}'], seq!['\n']);
}

/// One more operation keeps the count: the blocks that the listing counts
/// as open are still the brackets that its text has open.
pub proof fn lemma_step_counted(st: Listing, opcode: Opcode, args: Seq<Symbol>)
    requires
        counted(st),
    ensures
        step(st, opcode, args) matches Ok(next) ==> counted(next),
{
    match step(st, opcode, args) {
        Ok(next) => {
            lemma_leave_case(st);
            lemma_closing();
            lemma_body(opcode, args);
            let at = st.leave_case();
            if is_statement(opcode) {
                lemma_line(at, body_text(opcode, args).unwrap());
            } else if is_opener(opcode) {
                lemma_line(at, body_text(opcode, args).unwrap());
            } else if is_closer(opcode) {
                lemma_line(at.closed().unwrap(), "}"@);
            } else if opcode == Opcode::Else {
                lemma_line(at.closed().unwrap(), "} else {"@);
            } else if opcode == Opcode::EndSwitch {
                let arm = at.closed().unwrap();
                lemma_line(arm, "}"@);
                lemma_line(arm.line("}"@).closed().unwrap(), "}"@);
            } else if opcode == Opcode::Switch || opcode == Opcode::SwitchConst {
                lemma_line(st, body_text(opcode, args).unwrap());
            } else if is_case_head(opcode) {
                if !st.in_case {
                    lemma_line(st.closed().unwrap(), "}"@);
                }
                let head = st.enter_case().unwrap();
                lemma_indentation(head.level);
                lemma_add(indentation(head.level), body_text(opcode, args).unwrap());
                lemma_raw(head, indentation(head.level) + body_text(opcode, args).unwrap());
            } else if opcode == Opcode::EndCaseGroup {
                lemma_raw(st, "{}\n"@);
            } else if opcode == Opcode::Call || opcode == Opcode::ExecWait || opcode == Opcode::Exec {
                reveal_strlit("thread ");
                lemma_plain("thread "@);
                let call = call_text(opcode, args[0], args.subrange(1, args.len() as int)).unwrap();
                lemma_call_text(opcode, args[0], args.subrange(1, args.len() as int));
                let word = if opcode == Opcode::Exec {
                    "thread "@
                } else {
                    Seq::<char>::empty()
                };
                lemma_indentation(at.level);
                lemma_add3(indentation(at.level), word, call);
                lemma_raw(at, indentation(at.level) + word + call);
            } else if opcode == Opcode::ExecRet {
                reveal_strlit(" = thread ");
                lemma_plain(" = thread "@);
                let passed = without_third(args);
                let call = call_text(opcode, passed[0], passed.subrange(1, passed.len() as int)).unwrap();
                lemma_call_text(opcode, passed[0], passed.subrange(1, passed.len() as int));
                lemma_shown(args[1]);
                lemma_indentation(at.level);
                lemma_add3(indentation(at.level), args[1].shown(), " = thread "@);
                lemma_add(indentation(at.level) + args[1].shown() + " = thread "@, call);
                lemma_raw(at, indentation(at.level) + args[1].shown() + " = thread "@ + call);
            } else if opcode == Opcode::Bind {
                lemma_bind_text(args);
                lemma_line(at, bind_text(args).unwrap());
            }
        },
        Err(e) => {},
    }
}

/// The operations of a script keep the count.
pub proof fn lemma_run_counted(ops: Seq<(Opcode, Seq<Symbol>)>, i: int, st: Listing)
    requires
        counted(st),
    ensures
        run(ops, i, st) matches Ok(end) ==> counted(end),
    decreases ops.len() - i,
{
    if !(i < 0 || i >= ops.len() || ops[i].0 == Opcode::End) {
        lemma_step_counted(st, ops[i].0, ops[i].1);
        match step(st, ops[i].0, ops[i].1) {
            Ok(next) => {
                lemma_run_counted(ops, i + 1, next);
            },
            Err(e) => {},
        }
    }
}

/// Balanced control flow: a listing that is made at all has as many
/// opening as closing curly brackets, whatever the operations are. (One
/// whose blocks are not all closed when the operations end is not made.)
pub proof fn lemma_listed_level(offset: u32, ops: Seq<(Opcode, Seq<Symbol>)>)
    ensures
        listed(offset, ops) matches Ok(text) ==> level(text),
{
    reveal_strlit("fun dump_");
    reveal_strlit("() {\n");
    reveal_strlit("() ");
    reveal_strlit("{\n");
    let start = Listing {
        text: "fun dump_"@ + hex_lower(offset as nat) + "() {\n"@,
        level: 1,
        in_case: false,
    };
    lemma_plain("fun dump_"@);
    lemma_hex_lower(offset as nat);
    lemma_plain("() "@);
    assert("() {\n"@ =~= "() "@ + seq!['{'] + seq!['\n']);
    lemma_add3("() "@, seq!['{'], seq!['\n']);
    lemma_one('{');
    lemma_one('\n');
    lemma_add3("fun dump_"@, hex_lower(offset as nat), "() {\n"@);
    assert(counted(start));
    lemma_run_counted(ops, 0, start);
    match run(ops, 0, start) {
        Ok(end) => {
            lemma_closing();
            lemma_add(end.text, "}"@);
        },
        Err(e) => {},
    }
}

} // verus!
