//! The instruction encoder: pure mappings from the three mnemonic fragments
//! of a computation instruction to their fixed bit patterns, and the inverse
//! table lookups that recover the fragments from an emitted word.

use crate::text::str_eq;
use vstd::prelude::*;

verus! {

/// One computation instruction, split into its three mnemonic fragments.
pub struct Command<'a> {
    pub dest: &'a str,
    pub comp: &'a str,
    pub jump: &'a str,
}

/// The three-bit destination code. An unrecognized destination degrades to
/// the all-zero code: an empty field cannot be told from an invalid one.
pub open spec fn dest_code(d: Seq<char>) -> Seq<char> {
    if d == "M"@ {
        "001"@
    } else if d == "D"@ {
        "010"@
    } else if d == "MD"@ {
        "011"@
    } else if d == "A"@ {
        "100"@
    } else if d == "AM"@ {
        "101"@
    } else if d == "AD"@ {
        "110"@
    } else if d == "AMD"@ {
        "111"@
    } else {
        "000"@
    }
}

/// The three-bit jump code. An unrecognized jump degrades to the all-zero
/// (never-jump) code.
pub open spec fn jump_code(j: Seq<char>) -> Seq<char> {
    if j == "JGT"@ {
        "001"@
    } else if j == "JEQ"@ {
        "010"@
    } else if j == "JGE"@ {
        "011"@
    } else if j == "JLT"@ {
        "100"@
    } else if j == "JNE"@ {
        "101"@
    } else if j == "JLE"@ {
        "110"@
    } else if j == "JMP"@ {
        "111"@
    } else {
        "000"@
    }
}

/// The seven-bit computation code: the closed table of legal expressions.
/// An expression outside the table has no code; it is a fatal error.
pub open spec fn comp_code(c: Seq<char>) -> Option<Seq<char>> {
    if c == "0"@ {
        Some("0101010"@)
    } else if c == "1"@ {
        Some("0111111"@)
    } else if c == "-1"@ {
        Some("0111010"@)
    } else if c == "D"@ {
        Some("0001100"@)
    } else if c == "A"@ {
        Some("0110000"@)
    } else if c == "M"@ {
        Some("1110000"@)
    } else if c == "!D"@ {
        Some("0001101"@)
    } else if c == "!A"@ {
        Some("0110001"@)
    } else if c == "!M"@ {
        Some("1110001"@)
    } else if c == "-D"@ {
        Some("0001111"@)
    } else if c == "-A"@ {
        Some("0110011"@)
    } else if c == "-M"@ {
        Some("1110011"@)
    } else if c == "D+1"@ {
        Some("0011111"@)
    } else if c == "A+1"@ {
        Some("0110111"@)
    } else if c == "M+1"@ {
        Some("1110111"@)
    } else if c == "D-1"@ {
        Some("0001110"@)
    } else if c == "A-1"@ {
        Some("0110010"@)
    } else if c == "M-1"@ {
        Some("1110010"@)
    } else if c == "D+A"@ {
        Some("0000010"@)
    } else if c == "D+M"@ {
        Some("1000010"@)
    } else if c == "D-A"@ {
        Some("0010011"@)
    } else if c == "D-M"@ {
        Some("1010011"@)
    } else if c == "A-D"@ {
        Some("0000111"@)
    } else if c == "M-D"@ {
        Some("1000111"@)
    } else if c == "D&A"@ {
        Some("0000000"@)
    } else if c == "D&M"@ {
        Some("1000000"@)
    } else if c == "D|A"@ {
        Some("0010101"@)
    } else if c == "D|M"@ {
        Some("1010101"@)
    } else {
        None
    }
}

/// The sixteen-bit word of a computation instruction: the fixed opcode
/// prefix, then the computation, destination and jump codes in that order.
pub open spec fn command_word(dest: Seq<char>, comp: Seq<char>, jump: Seq<char>) -> Seq<char>
    recommends
        comp_code(comp) is Some,
{
    "111"@ + comp_code(comp)->Some_0 + dest_code(dest) + jump_code(jump)
}

fn generate_dest(dest: &str) -> (r: String)
    ensures
        r@ == dest_code(dest@),
{
    if str_eq(dest, "M") {
        "001".to_owned()
    } else if str_eq(dest, "D") {
        "010".to_owned()
    } else if str_eq(dest, "MD") {
        "011".to_owned()
    } else if str_eq(dest, "A") {
        "100".to_owned()
    } else if str_eq(dest, "AM") {
        "101".to_owned()
    } else if str_eq(dest, "AD") {
        "110".to_owned()
    } else if str_eq(dest, "AMD") {
        "111".to_owned()
    } else {
        "000".to_owned()
    }
}

fn generate_jump(jump: &str) -> (r: String)
    ensures
        r@ == jump_code(jump@),
{
    if str_eq(jump, "JGT") {
        "001".to_owned()
    } else if str_eq(jump, "JEQ") {
        "010".to_owned()
    } else if str_eq(jump, "JGE") {
        "011".to_owned()
    } else if str_eq(jump, "JLT") {
        "100".to_owned()
    } else if str_eq(jump, "JNE") {
        "101".to_owned()
    } else if str_eq(jump, "JLE") {
        "110".to_owned()
    } else if str_eq(jump, "JMP") {
        "111".to_owned()
    } else {
        "000".to_owned()
    }
}

fn generate_comp(comp: &str) -> (r: Option<String>)
    ensures
        r is Some <==> comp_code(comp@) is Some,
        r is Some ==> r->Some_0@ == comp_code(comp@)->Some_0,
{
    if str_eq(comp, "0") {
        Some("0101010".to_owned())
    } else if str_eq(comp, "1") {
        Some("0111111".to_owned())
    } else if str_eq(comp, "-1") {
        Some("0111010".to_owned())
    } else if str_eq(comp, "D") {
        Some("0001100".to_owned())
    } else if str_eq(comp, "A") {
        Some("0110000".to_owned())
    } else if str_eq(comp, "M") {
        Some("1110000".to_owned())
    } else if str_eq(comp, "!D") {
        Some("0001101".to_owned())
    } else if str_eq(comp, "!A") {
        Some("0110001".to_owned())
    } else if str_eq(comp, "!M") {
        Some("1110001".to_owned())
    } else if str_eq(comp, "-D") {
        Some("0001111".to_owned())
    } else if str_eq(comp, "-A") {
        Some("0110011".to_owned())
    } else if str_eq(comp, "-M") {
        Some("1110011".to_owned())
    } else if str_eq(comp, "D+1") {
        Some("0011111".to_owned())
    } else if str_eq(comp, "A+1") {
        Some("0110111".to_owned())
    } else if str_eq(comp, "M+1") {
        Some("1110111".to_owned())
    } else if str_eq(comp, "D-1") {
        Some("0001110".to_owned())
    } else if str_eq(comp, "A-1") {
        Some("0110010".to_owned())
    } else if str_eq(comp, "M-1") {
        Some("1110010".to_owned())
    } else if str_eq(comp, "D+A") {
        Some("0000010".to_owned())
    } else if str_eq(comp, "D+M") {
        Some("1000010".to_owned())
    } else if str_eq(comp, "D-A") {
        Some("0010011".to_owned())
    } else if str_eq(comp, "D-M") {
        Some("1010011".to_owned())
    } else if str_eq(comp, "A-D") {
        Some("0000111".to_owned())
    } else if str_eq(comp, "M-D") {
        Some("1000111".to_owned())
    } else if str_eq(comp, "D&A") {
        Some("0000000".to_owned())
    } else if str_eq(comp, "D&M") {
        Some("1000000".to_owned())
    } else if str_eq(comp, "D|A") {
        Some("0010101".to_owned())
    } else if str_eq(comp, "D|M") {
        Some("1010101".to_owned())
    } else {
        None
    }
}

/// Whether a computation expression stands in the closed table.
pub fn comp_is_valid(comp: &str) -> (r: bool)
    ensures
        r == (comp_code(comp@) is Some),
{
    generate_comp(comp).is_some()
}

/// Encodes one computation instruction as its sixteen-bit binary word.
/// The computation expression must come from the closed table; destination
/// and jump degrade to the all-zero code when unrecognized.
pub fn generate_command(command: Command<'_>) -> (r: String)
    requires
        comp_code(command.comp@) is Some,
    ensures
        r@ == command_word(command.dest@, command.comp@, command.jump@),
{
    let Command { dest, comp, jump } = command;
    let comp_bits = match generate_comp(comp) {
        Some(bits) => bits,
        None => unreached(),
    };
    let mut word = "111".to_owned();
    word.append(comp_bits.as_str());
    word.append(generate_dest(dest).as_str());
    word.append(generate_jump(jump).as_str());
    word
}

/// The destination mnemonics of the closed table, the empty field included.
pub open spec fn is_dest_mnemonic(d: Seq<char>) -> bool {
    d == ""@ || d == "M"@ || d == "D"@ || d == "MD"@ || d == "A"@ || d == "AM"@ || d == "AD"@ || d
        == "AMD"@
}

/// The jump mnemonics of the closed table, the empty field included.
pub open spec fn is_jump_mnemonic(j: Seq<char>) -> bool {
    j == ""@ || j == "JGT"@ || j == "JEQ"@ || j == "JGE"@ || j == "JLT"@ || j == "JNE"@ || j
        == "JLE"@ || j == "JMP"@
}

/// The computation expressions of the closed table.
pub open spec fn is_comp_mnemonic(c: Seq<char>) -> bool {
    comp_code(c) is Some
}

/// The destination mnemonic of a three-bit code.
pub open spec fn dest_of_code(code: Seq<char>) -> Seq<char> {
    if code == "001"@ {
        "M"@
    } else if code == "010"@ {
        "D"@
    } else if code == "011"@ {
        "MD"@
    } else if code == "100"@ {
        "A"@
    } else if code == "101"@ {
        "AM"@
    } else if code == "110"@ {
        "AD"@
    } else if code == "111"@ {
        "AMD"@
    } else {
        ""@
    }
}

/// The jump mnemonic of a three-bit code.
pub open spec fn jump_of_code(code: Seq<char>) -> Seq<char> {
    if code == "001"@ {
        "JGT"@
    } else if code == "010"@ {
        "JEQ"@
    } else if code == "011"@ {
        "JGE"@
    } else if code == "100"@ {
        "JLT"@
    } else if code == "101"@ {
        "JNE"@
    } else if code == "110"@ {
        "JLE"@
    } else if code == "111"@ {
        "JMP"@
    } else {
        ""@
    }
}

/// The computation expression of a seven-bit code, where the code is in the
/// table.
pub open spec fn comp_of_code(code: Seq<char>) -> Option<Seq<char>> {
    if code == "0101010"@ {
        Some("0"@)
    } else if code == "0111111"@ {
        Some("1"@)
    } else if code == "0111010"@ {
        Some("-1"@)
    } else if code == "0001100"@ {
        Some("D"@)
    } else if code == "0110000"@ {
        Some("A"@)
    } else if code == "1110000"@ {
        Some("M"@)
    } else if code == "0001101"@ {
        Some("!D"@)
    } else if code == "0110001"@ {
        Some("!A"@)
    } else if code == "1110001"@ {
        Some("!M"@)
    } else if code == "0001111"@ {
        Some("-D"@)
    } else if code == "0110011"@ {
        Some("-A"@)
    } else if code == "1110011"@ {
        Some("-M"@)
    } else if code == "0011111"@ {
        Some("D+1"@)
    } else if code == "0110111"@ {
        Some("A+1"@)
    } else if code == "1110111"@ {
        Some("M+1"@)
    } else if code == "0001110"@ {
        Some("D-1"@)
    } else if code == "0110010"@ {
        Some("A-1"@)
    } else if code == "1110010"@ {
        Some("M-1"@)
    } else if code == "0000010"@ {
        Some("D+A"@)
    } else if code == "1000010"@ {
        Some("D+M"@)
    } else if code == "0010011"@ {
        Some("D-A"@)
    } else if code == "1010011"@ {
        Some("D-M"@)
    } else if code == "0000111"@ {
        Some("A-D"@)
    } else if code == "1000111"@ {
        Some("M-D"@)
    } else if code == "0000000"@ {
        Some("D&A"@)
    } else if code == "1000000"@ {
        Some("D&M"@)
    } else if code == "0010101"@ {
        Some("D|A"@)
    } else if code == "1010101"@ {
        Some("D|M"@)
    } else {
        None
    }
}

/// The three fields recovered from a sixteen-bit word by table lookup: the
/// fixed prefix checked, then the computation, destination and jump codes
/// read back at their fixed positions.
pub open spec fn decode_word(w: Seq<char>) -> Option<(Seq<char>, Seq<char>, Seq<char>)> {
    if w.len() == 16 && w.subrange(0, 3) == "111"@ {
        match comp_of_code(w.subrange(3, 10)) {
            Some(c) => Some((dest_of_code(w.subrange(10, 13)), c, jump_of_code(w.subrange(13, 16)))),
            None => None,
        }
    } else {
        None
    }
}

fn decode_dest(code: &str) -> (r: String)
    ensures
        r@ == dest_of_code(code@),
{
    if str_eq(code, "001") {
        "M".to_owned()
    } else if str_eq(code, "010") {
        "D".to_owned()
    } else if str_eq(code, "011") {
        "MD".to_owned()
    } else if str_eq(code, "100") {
        "A".to_owned()
    } else if str_eq(code, "101") {
        "AM".to_owned()
    } else if str_eq(code, "110") {
        "AD".to_owned()
    } else if str_eq(code, "111") {
        "AMD".to_owned()
    } else {
        "".to_owned()
    }
}

fn decode_jump(code: &str) -> (r: String)
    ensures
        r@ == jump_of_code(code@),
{
    if str_eq(code, "001") {
        "JGT".to_owned()
    } else if str_eq(code, "010") {
        "JEQ".to_owned()
    } else if str_eq(code, "011") {
        "JGE".to_owned()
    } else if str_eq(code, "100") {
        "JLT".to_owned()
    } else if str_eq(code, "101") {
        "JNE".to_owned()
    } else if str_eq(code, "110") {
        "JLE".to_owned()
    } else if str_eq(code, "111") {
        "JMP".to_owned()
    } else {
        "".to_owned()
    }
}

fn decode_comp(code: &str) -> (r: Option<String>)
    ensures
        r is Some <==> comp_of_code(code@) is Some,
        r is Some ==> r->Some_0@ == comp_of_code(code@)->Some_0,
{
    if str_eq(code, "0101010") {
        Some("0".to_owned())
    } else if str_eq(code, "0111111") {
        Some("1".to_owned())
    } else if str_eq(code, "0111010") {
        Some("-1".to_owned())
    } else if str_eq(code, "0001100") {
        Some("D".to_owned())
    } else if str_eq(code, "0110000") {
        Some("A".to_owned())
    } else if str_eq(code, "1110000") {
        Some("M".to_owned())
    } else if str_eq(code, "0001101") {
        Some("!D".to_owned())
    } else if str_eq(code, "0110001") {
        Some("!A".to_owned())
    } else if str_eq(code, "1110001") {
        Some("!M".to_owned())
    } else if str_eq(code, "0001111") {
        Some("-D".to_owned())
    } else if str_eq(code, "0110011") {
        Some("-A".to_owned())
    } else if str_eq(code, "1110011") {
        Some("-M".to_owned())
    } else if str_eq(code, "0011111") {
        Some("D+1".to_owned())
    } else if str_eq(code, "0110111") {
        Some("A+1".to_owned())
    } else if str_eq(code, "1110111") {
        Some("M+1".to_owned())
    } else if str_eq(code, "0001110") {
        Some("D-1".to_owned())
    } else if str_eq(code, "0110010") {
        Some("A-1".to_owned())
    } else if str_eq(code, "1110010") {
        Some("M-1".to_owned())
    } else if str_eq(code, "0000010") {
        Some("D+A".to_owned())
    } else if str_eq(code, "1000010") {
        Some("D+M".to_owned())
    } else if str_eq(code, "0010011") {
        Some("D-A".to_owned())
    } else if str_eq(code, "1010011") {
        Some("D-M".to_owned())
    } else if str_eq(code, "0000111") {
        Some("A-D".to_owned())
    } else if str_eq(code, "1000111") {
        Some("M-D".to_owned())
    } else if str_eq(code, "0000000") {
        Some("D&A".to_owned())
    } else if str_eq(code, "1000000") {
        Some("D&M".to_owned())
    } else if str_eq(code, "0010101") {
        Some("D|A".to_owned())
    } else if str_eq(code, "1010101") {
        Some("D|M".to_owned())
    } else {
        None
    }
}

/// Recovers the destination, computation and jump mnemonics from a
/// sixteen-bit binary word by table lookup: the inverse of
/// `generate_command` on every word it emits.
pub fn decode_command(word: &str) -> (r: Option<(String, String, String)>)
    ensures
        r is Some <==> decode_word(word@) is Some,
        r matches Some(f) ==> (f.0@, f.1@, f.2@) == decode_word(word@)->Some_0,
{
    let n = word.unicode_len();
    if n != 16 {
        return None;
    }
    if !str_eq(word.substring_char(0, 3), "111") {
        return None;
    }
    let comp = match decode_comp(word.substring_char(3, 10)) {
        Some(c) => c,
        None => {
            return None;
        },
    };
    let dest = decode_dest(word.substring_char(10, 13));
    let jump = decode_jump(word.substring_char(13, 16));
    Some((dest, comp, jump))
}

proof fn reveal_dest_table()
    ensures
        dest_of_code(dest_code(""@)) == ""@,
        dest_of_code(dest_code("M"@)) == "M"@,
        dest_of_code(dest_code("D"@)) == "D"@,
        dest_of_code(dest_code("MD"@)) == "MD"@,
        dest_of_code(dest_code("A"@)) == "A"@,
        dest_of_code(dest_code("AM"@)) == "AM"@,
        dest_of_code(dest_code("AD"@)) == "AD"@,
        dest_of_code(dest_code("AMD"@)) == "AMD"@,
        dest_code(""@).len() == 3,
        dest_code("M"@).len() == 3,
        dest_code("D"@).len() == 3,
        dest_code("MD"@).len() == 3,
        dest_code("A"@).len() == 3,
        dest_code("AM"@).len() == 3,
        dest_code("AD"@).len() == 3,
        dest_code("AMD"@).len() == 3,
{
    reveal_strlit("");
    reveal_strlit("M");
    reveal_strlit("D");
    reveal_strlit("MD");
    reveal_strlit("A");
    reveal_strlit("AM");
    reveal_strlit("AD");
    reveal_strlit("AMD");
    reveal_strlit("000");
    reveal_strlit("001");
    reveal_strlit("010");
    reveal_strlit("011");
    reveal_strlit("100");
    reveal_strlit("101");
    reveal_strlit("110");
    reveal_strlit("111");
    assert(""@ =~= Seq::<char>::empty());
    assert("M"@ =~= seq!['M']);
    assert("D"@ =~= seq!['D']);
    assert("MD"@ =~= seq!['M', 'D']);
    assert("A"@ =~= seq!['A']);
    assert("AM"@ =~= seq!['A', 'M']);
    assert("AD"@ =~= seq!['A', 'D']);
    assert("AMD"@ =~= seq!['A', 'M', 'D']);
    assert("000"@ =~= seq!['0', '0', '0']);
    assert("001"@ =~= seq!['0', '0', '1']);
    assert("010"@ =~= seq!['0', '1', '0']);
    assert("011"@ =~= seq!['0', '1', '1']);
    assert("100"@ =~= seq!['1', '0', '0']);
    assert("101"@ =~= seq!['1', '0', '1']);
    assert("110"@ =~= seq!['1', '1', '0']);
    assert("111"@ =~= seq!['1', '1', '1']);
}

/// Encoding a destination field and looking its code back up in the table
/// recovers the field.
pub proof fn lemma_dest_round_trip(d: Seq<char>)
    requires
        is_dest_mnemonic(d),
    ensures
        dest_of_code(dest_code(d)) == d,
        dest_code(d).len() == 3,
{
    reveal_dest_table();
}

proof fn reveal_jump_table()
    ensures
        jump_of_code(jump_code(""@)) == ""@,
        jump_of_code(jump_code("JGT"@)) == "JGT"@,
        jump_of_code(jump_code("JEQ"@)) == "JEQ"@,
        jump_of_code(jump_code("JGE"@)) == "JGE"@,
        jump_of_code(jump_code("JLT"@)) == "JLT"@,
        jump_of_code(jump_code("JNE"@)) == "JNE"@,
        jump_of_code(jump_code("JLE"@)) == "JLE"@,
        jump_of_code(jump_code("JMP"@)) == "JMP"@,
        jump_code(""@).len() == 3,
        jump_code("JGT"@).len() == 3,
        jump_code("JEQ"@).len() == 3,
        jump_code("JGE"@).len() == 3,
        jump_code("JLT"@).len() == 3,
        jump_code("JNE"@).len() == 3,
        jump_code("JLE"@).len() == 3,
        jump_code("JMP"@).len() == 3,
{
    reveal_strlit("");
    reveal_strlit("JGT");
    reveal_strlit("JEQ");
    reveal_strlit("JGE");
    reveal_strlit("JLT");
    reveal_strlit("JNE");
    reveal_strlit("JLE");
    reveal_strlit("JMP");
    reveal_strlit("000");
    reveal_strlit("001");
    reveal_strlit("010");
    reveal_strlit("011");
    reveal_strlit("100");
    reveal_strlit("101");
    reveal_strlit("110");
    reveal_strlit("111");
    assert(""@ =~= Seq::<char>::empty());
    assert("JGT"@ =~= seq!['J', 'G', 'T']);
    assert("JEQ"@ =~= seq!['J', 'E', 'Q']);
    assert("JGE"@ =~= seq!['J', 'G', 'E']);
    assert("JLT"@ =~= seq!['J', 'L', 'T']);
    assert("JNE"@ =~= seq!['J', 'N', 'E']);
    assert("JLE"@ =~= seq!['J', 'L', 'E']);
    assert("JMP"@ =~= seq!['J', 'M', 'P']);
    assert("000"@ =~= seq!['0', '0', '0']);
    assert("001"@ =~= seq!['0', '0', '1']);
    assert("010"@ =~= seq!['0', '1', '0']);
    assert("011"@ =~= seq!['0', '1', '1']);
    assert("100"@ =~= seq!['1', '0', '0']);
    assert("101"@ =~= seq!['1', '0', '1']);
    assert("110"@ =~= seq!['1', '1', '0']);
    assert("111"@ =~= seq!['1', '1', '1']);
}

/// Encoding a jump field and looking its code back up in the table recovers
/// the field.
pub proof fn lemma_jump_round_trip(j: Seq<char>)
    requires
        is_jump_mnemonic(j),
    ensures
        jump_of_code(jump_code(j)) == j,
        jump_code(j).len() == 3,
{
    reveal_jump_table();
}

/// Encoding a computation expression and looking its code back up in the
/// table recovers the expression.
pub proof fn lemma_comp_round_trip(c: Seq<char>)
    requires
        is_comp_mnemonic(c),
    ensures
        comp_of_code(comp_code(c)->Some_0) == Some(c),
        comp_code(c)->Some_0.len() == 7,
{
    reveal_strlit("0");
    reveal_strlit("1");
    reveal_strlit("-1");
    reveal_strlit("D");
    reveal_strlit("A");
    reveal_strlit("M");
    reveal_strlit("!D");
    reveal_strlit("!A");
    reveal_strlit("!M");
    reveal_strlit("-D");
    reveal_strlit("-A");
    reveal_strlit("-M");
    reveal_strlit("D+1");
    reveal_strlit("A+1");
    reveal_strlit("M+1");
    reveal_strlit("D-1");
    reveal_strlit("A-1");
    reveal_strlit("M-1");
    reveal_strlit("D+A");
    reveal_strlit("D+M");
    reveal_strlit("D-A");
    reveal_strlit("D-M");
    reveal_strlit("A-D");
    reveal_strlit("M-D");
    reveal_strlit("D&A");
    reveal_strlit("D&M");
    reveal_strlit("D|A");
    reveal_strlit("D|M");
    reveal_strlit("0101010");
    reveal_strlit("0111111");
    reveal_strlit("0111010");
    reveal_strlit("0001100");
    reveal_strlit("0110000");
    reveal_strlit("1110000");
    reveal_strlit("0001101");
    reveal_strlit("0110001");
    reveal_strlit("1110001");
    reveal_strlit("0001111");
    reveal_strlit("0110011");
    reveal_strlit("1110011");
    reveal_strlit("0011111");
    reveal_strlit("0110111");
    reveal_strlit("1110111");
    reveal_strlit("0001110");
    reveal_strlit("0110010");
    reveal_strlit("1110010");
    reveal_strlit("0000010");
    reveal_strlit("1000010");
    reveal_strlit("0010011");
    reveal_strlit("1010011");
    reveal_strlit("0000111");
    reveal_strlit("1000111");
    reveal_strlit("0000000");
    reveal_strlit("1000000");
    reveal_strlit("0010101");
    reveal_strlit("1010101");
    assert("0"@ =~= seq!['0']);
    assert("1"@ =~= seq!['1']);
    assert("-1"@ =~= seq!['-', '1']);
    assert("D"@ =~= seq!['D']);
    assert("A"@ =~= seq!['A']);
    assert("M"@ =~= seq!['M']);
    assert("!D"@ =~= seq!['!', 'D']);
    assert("!A"@ =~= seq!['!', 'A']);
    assert("!M"@ =~= seq!['!', 'M']);
    assert("-D"@ =~= seq!['-', 'D']);
    assert("-A"@ =~= seq!['-', 'A']);
    assert("-M"@ =~= seq!['-', 'M']);
    assert("D+1"@ =~= seq!['D', '+', '1']);
    assert("A+1"@ =~= seq!['A', '+', '1']);
    assert("M+1"@ =~= seq!['M', '+', '1']);
    assert("D-1"@ =~= seq!['D', '-', '1']);
    assert("A-1"@ =~= seq!['A', '-', '1']);
    assert("M-1"@ =~= seq!['M', '-', '1']);
    assert("D+A"@ =~= seq!['D', '+', 'A']);
    assert("D+M"@ =~= seq!['D', '+', 'M']);
    assert("D-A"@ =~= seq!['D', '-', 'A']);
    assert("D-M"@ =~= seq!['D', '-', 'M']);
    assert("A-D"@ =~= seq!['A', '-', 'D']);
    assert("M-D"@ =~= seq!['M', '-', 'D']);
    assert("D&A"@ =~= seq!['D', '&', 'A']);
    assert("D&M"@ =~= seq!['D', '&', 'M']);
    assert("D|A"@ =~= seq!['D', '|', 'A']);
    assert("D|M"@ =~= seq!['D', '|', 'M']);
    assert("0101010"@ =~= seq!['0', '1', '0', '1', '0', '1', '0']);
    assert("0111111"@ =~= seq!['0', '1', '1', '1', '1', '1', '1']);
    assert("0111010"@ =~= seq!['0', '1', '1', '1', '0', '1', '0']);
    assert("0001100"@ =~= seq!['0', '0', '0', '1', '1', '0', '0']);
    assert("0110000"@ =~= seq!['0', '1', '1', '0', '0', '0', '0']);
    assert("1110000"@ =~= seq!['1', '1', '1', '0', '0', '0', '0']);
    assert("0001101"@ =~= seq!['0', '0', '0', '1', '1', '0', '1']);
    assert("0110001"@ =~= seq!['0', '1', '1', '0', '0', '0', '1']);
    assert("1110001"@ =~= seq!['1', '1', '1', '0', '0', '0', '1']);
    assert("0001111"@ =~= seq!['0', '0', '0', '1', '1', '1', '1']);
    assert("0110011"@ =~= seq!['0', '1', '1', '0', '0', '1', '1']);
    assert("1110011"@ =~= seq!['1', '1', '1', '0', '0', '1', '1']);
    assert("0011111"@ =~= seq!['0', '0', '1', '1', '1', '1', '1']);
    assert("0110111"@ =~= seq!['0', '1', '1', '0', '1', '1', '1']);
    assert("1110111"@ =~= seq!['1', '1', '1', '0', '1', '1', '1']);
    assert("0001110"@ =~= seq!['0', '0', '0', '1', '1', '1', '0']);
    assert("0110010"@ =~= seq!['0', '1', '1', '0', '0', '1', '0']);
    assert("1110010"@ =~= seq!['1', '1', '1', '0', '0', '1', '0']);
    assert("0000010"@ =~= seq!['0', '0', '0', '0', '0', '1', '0']);
    assert("1000010"@ =~= seq!['1', '0', '0', '0', '0', '1', '0']);
    assert("0010011"@ =~= seq!['0', '0', '1', '0', '0', '1', '1']);
    assert("1010011"@ =~= seq!['1', '0', '1', '0', '0', '1', '1']);
    assert("0000111"@ =~= seq!['0', '0', '0', '0', '1', '1', '1']);
    assert("1000111"@ =~= seq!['1', '0', '0', '0', '1', '1', '1']);
    assert("0000000"@ =~= seq!['0', '0', '0', '0', '0', '0', '0']);
    assert("1000000"@ =~= seq!['1', '0', '0', '0', '0', '0', '0']);
    assert("0010101"@ =~= seq!['0', '0', '1', '0', '1', '0', '1']);
    assert("1010101"@ =~= seq!['1', '0', '1', '0', '1', '0', '1']);
}

/// Round trip: for every fixed destination, computation and jump combination
/// of the closed tables, decoding the emitted sixteen-bit word recovers the
/// original mnemonic triple.
pub proof fn lemma_word_round_trip(d: Seq<char>, c: Seq<char>, j: Seq<char>)
    requires
        is_dest_mnemonic(d),
        is_comp_mnemonic(c),
        is_jump_mnemonic(j),
    ensures
        decode_word(command_word(d, c, j)) == Some((d, c, j)),
{
    lemma_dest_round_trip(d);
    lemma_comp_round_trip(c);
    lemma_jump_round_trip(j);
    reveal_strlit("111");
    let w = command_word(d, c, j);
    let cc = comp_code(c)->Some_0;
    assert(w.len() == 16);
    assert(w.subrange(0, 3) =~= "111"@);
    assert(w.subrange(3, 10) =~= cc);
    assert(w.subrange(10, 13) =~= dest_code(d));
    assert(w.subrange(13, 16) =~= jump_code(j));
}

} // verus!
