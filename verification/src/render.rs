//! The assembly text of an instruction sequence.
use vstd::prelude::*;
use vstd::string::*;
use crate::instr::Instr;

verus! {

/// The character of one decimal digit.
pub open spec fn digit(d: int) -> char {
    if d == 0 {
        '0'
    } else if d == 1 {
        '1'
    } else if d == 2 {
        '2'
    } else if d == 3 {
        '3'
    } else if d == 4 {
        '4'
    } else if d == 5 {
        '5'
    } else if d == 6 {
        '6'
    } else if d == 7 {
        '7'
    } else if d == 8 {
        '8'
    } else {
        '9'
    }
}

/// The decimal digits of a natural number, without leading zeros.
pub open spec fn digits(n: nat) -> Seq<char>
    decreases n,
{
    if n < 10 {
        seq![digit(n as int)]
    } else {
        digits(n / 10).push(digit((n % 10) as int))
    }
}

/// The decimal notation of an integer: a minus sign if it is negative, then
/// the digits of its magnitude.
pub open spec fn decimal(n: int) -> Seq<char> {
    if n < 0 {
        seq!['-'] + digits((-n) as nat)
    } else {
        digits(n as nat)
    }
}

/// The operand text of the slot at `offset`.
pub open spec fn slot_text(offset: i32) -> Seq<char> {
    "[rsp - "@ + decimal(offset as int) + "]"@
}

/// The assembly text of one instruction.
pub open spec fn instr_text(instr: Instr) -> Seq<char> {
    match instr {
        Instr::LoadImmediate(n) => "mov rax, "@ + decimal(n as int),
        Instr::LoadFromSlot(offset) => "mov rax, "@ + slot_text(offset),
        Instr::StoreToSlot(offset) => "mov "@ + slot_text(offset) + ", rax"@,
        Instr::Increment => "add rax, 1"@,
        Instr::Decrement => "sub rax, 1"@,
        Instr::NegateAccumulator => "imul rax, -1"@,
        Instr::AddFromSlot(offset) => "add rax, "@ + slot_text(offset),
        Instr::MultiplyFromSlot(offset) => "imul rax, "@ + slot_text(offset),
        Instr::SubtractReversed(offset) => "mov rbx, "@ + slot_text(offset)
            + "\n  sub rbx, rax\n  mov rax, rbx"@,
    }
}

/// The text of a sequence of instructions: one after the other, a line
/// break and two spaces between each two.
pub open spec fn code_text(code: Seq<Instr>) -> Seq<char>
    decreases code.len(),
{
    if code.len() == 0 {
        Seq::empty()
    } else if code.len() == 1 {
        instr_text(code[0])
    } else {
        code_text(code.drop_last()) + "\n  "@ + instr_text(code.last())
    }
}

/// The whole program around the text of an instruction sequence.
pub open spec fn program_text(body: Seq<char>) -> Seq<char> {
    "section .text\nglobal our_code_starts_here\nour_code_starts_here:\n  "@ + body + "\n  ret\n"@
}

fn digit_text(d: u32) -> (text: &'static str)
    requires
        d < 10,
    ensures
        text@ == seq![digit(d as int)],
{
    proof {
        reveal_strlit("0");
        reveal_strlit("1");
        reveal_strlit("2");
        reveal_strlit("3");
        reveal_strlit("4");
        reveal_strlit("5");
        reveal_strlit("6");
        reveal_strlit("7");
        reveal_strlit("8");
        reveal_strlit("9");
    }
    let text = if d == 0 {
        "0"
    } else if d == 1 {
        "1"
    } else if d == 2 {
        "2"
    } else if d == 3 {
        "3"
    } else if d == 4 {
        "4"
    } else if d == 5 {
        "5"
    } else if d == 6 {
        "6"
    } else if d == 7 {
        "7"
    } else if d == 8 {
        "8"
    } else {
        "9"
    };
    assert(text@ =~= seq![digit(d as int)]);
    text
}

fn digits_string(n: u32) -> (text: String)
    ensures
        text@ == digits(n as nat),
    decreases n,
{
    if n < 10 {
        String::from_str(digit_text(n))
    } else {
        let mut text = digits_string(n / 10);
        text.append(digit_text(n % 10));
        assert(text@ =~= digits((n / 10) as nat).push(digit((n % 10) as int)));
        text
    }
}

/// Writes an integer in decimal notation.
pub fn decimal_string(n: i32) -> (text: String)
    ensures
        text@ == decimal(n as int),
{
    if n < 0 {
        proof {
            reveal_strlit("-");
        }
        let magnitude: u32 = (-(n as i64)) as u32;
        let number = digits_string(magnitude);
        let text = String::from_str("-").concat(number.as_str());
        assert(text@ =~= seq!['-'] + digits((-n) as nat));
        text
    } else {
        digits_string(n as u32)
    }
}

fn slot_string(offset: i32) -> (text: String)
    ensures
        text@ == slot_text(offset),
{
    let number = decimal_string(offset);
    String::from_str("[rsp - ").concat(number.as_str()).concat("]")
}

/// Renders one instruction.
pub fn render_instr(instr: &Instr) -> (text: String)
    ensures
        text@ == instr_text(*instr),
{
    match instr {
        Instr::LoadImmediate(n) => {
            let number = decimal_string(*n);
            String::from_str("mov rax, ").concat(number.as_str())
        },
        Instr::LoadFromSlot(offset) => {
            let slot = slot_string(*offset);
            String::from_str("mov rax, ").concat(slot.as_str())
        },
        Instr::StoreToSlot(offset) => {
            let slot = slot_string(*offset);
            String::from_str("mov ").concat(slot.as_str()).concat(", rax")
        },
        Instr::Increment => String::from_str("add rax, 1"),
        Instr::Decrement => String::from_str("sub rax, 1"),
        Instr::NegateAccumulator => String::from_str("imul rax, -1"),
        Instr::AddFromSlot(offset) => {
            let slot = slot_string(*offset);
            String::from_str("add rax, ").concat(slot.as_str())
        },
        Instr::MultiplyFromSlot(offset) => {
            let slot = slot_string(*offset);
            String::from_str("imul rax, ").concat(slot.as_str())
        },
        Instr::SubtractReversed(offset) => {
            let slot = slot_string(*offset);
            String::from_str("mov rbx, ").concat(slot.as_str()).concat(
                "\n  sub rbx, rax\n  mov rax, rbx",
            )
        },
    }
}

/// Renders a sequence of instructions, in order.
pub fn render(code: &Vec<Instr>) -> (text: String)
    ensures
        text@ == code_text(code@),
{
    let mut text = String::new();
    let mut i: usize = 0;
    while i < code.len()
        invariant
            i <= code.len(),
            text@ == code_text(code@.subrange(0, i as int)),
        decreases code.len() - i,
    {
        let line = render_instr(&code[i]);
        let ghost done = code@.subrange(0, i as int);
        let ghost next = code@.subrange(0, i + 1);
        assert(next.drop_last() =~= done);
        assert(next.last() == code@[i as int]);
        if i > 0 {
            text.append("\n  ");
        } else {
            assert(text@ + line@ =~= line@);
        }
        text.append(line.as_str());
        i += 1;
    }
    assert(code@.subrange(0, i as int) =~= code@);
    text
}

/// Puts the program's fixed text around the text of its instructions.
pub fn render_program(body: &str) -> (text: String)
    ensures
        text@ == program_text(body@),
{
    String::from_str(
        "section .text\nglobal our_code_starts_here\nour_code_starts_here:\n  ",
    ).concat(body).concat("\n  ret\n")
}

} // verus!
