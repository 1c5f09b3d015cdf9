use vstd::prelude::*;
use vstd::string::StrSliceExecFns;

verus! {

/// Length of the instruction that starts `code`, decoded with `bitness`.
pub uninterp spec fn decoded_length(code: Seq<u8>, bitness: u32) -> nat;

/// Text of the instruction that starts `code`, decoded with `bitness` at
/// address `ip`.
pub uninterp spec fn decoded_text(code: Seq<u8>, bitness: u32, ip: u64) -> Seq<char>;

/// Word sizes the decoder accepts.
pub open spec fn valid_bitness(bitness: u32) -> bool {
    bitness == 16 || bitness == 32 || bitness == 64
}

/// Relies on iced_x86::Decoder::decode: the length of the instruction at
/// `start`. With bytes left the decoder consumes at least one, no more than
/// are left and no more than 15; bytes that do not decode give an invalid
/// instruction that still consumes them. The decoder's constructor panics
/// only for a word size other than 16, 32 or 64.
#[verifier::external_body]
fn decode_length(code: &[u8], start: usize, bitness: u32) -> (r: usize)
    requires
        start < code@.len(),
        valid_bitness(bitness),
    ensures
        r == decoded_length(code@.subrange(start as int, code@.len() as int), bitness),
        1 <= r <= 15,
        start + r <= code@.len(),
{
    let data = &code[start..];
    let mut decoder = iced_x86::Decoder::with_ip(bitness, data, start as u64, iced_x86::DecoderOptions::NONE);
    decoder.decode().len()
}

/// Relies on iced_x86's `Display` for `Instruction` (its default formatter):
/// the text of the instruction decoded at `start`, placed at address `start`.
#[verifier::external_body]
fn instruction_text(code: &[u8], start: usize, bitness: u32) -> (r: String)
    requires
        start < code@.len(),
        valid_bitness(bitness),
    ensures
        r@ == decoded_text(
            code@.subrange(start as int, code@.len() as int),
            bitness,
            start as u64,
        ),
{
    let data = &code[start..];
    let mut decoder = iced_x86::Decoder::with_ip(bitness, data, start as u64, iced_x86::DecoderOptions::NONE);
    decoder.decode().to_string()
}

/// Length of the instruction that a linear sweep decodes at `pos`.
pub open spec fn length_at(code: Seq<u8>, bitness: u32, pos: int) -> nat {
    decoded_length(code.subrange(pos, code.len() as int), bitness)
}

/// The (address, length) of each instruction that a linear sweep of `code`
/// decodes from `pos` on: each starts where the one before ends.
pub open spec fn sweep(code: Seq<u8>, bitness: u32, pos: int) -> Seq<(int, int)>
    decreases code.len() - pos,
{
    let n = length_at(code, bitness, pos);
    if pos < 0 || pos >= code.len() || n == 0 || pos + n > code.len() {
        Seq::empty()
    } else {
        seq![(pos, n as int)] + sweep(code, bitness, pos + n)
    }
}

/// Characters before the first space of `t`, or all of `t`.
pub open spec fn mnemonic_of(t: Seq<char>) -> Seq<char> {
    if exists|k: int| 0 <= k < t.len() && t[k] == ' ' {
        let k = choose|k: int|
            0 <= k < t.len() && t[k] == ' ' && forall|j: int| 0 <= j < k ==> t[j] != ' ';
        t.subrange(0, k)
    } else {
        t
    }
}

/// Characters after the first space of `t`, or none.
pub open spec fn operands_of(t: Seq<char>) -> Seq<char> {
    if exists|k: int| 0 <= k < t.len() && t[k] == ' ' {
        let k = choose|k: int|
            0 <= k < t.len() && t[k] == ' ' && forall|j: int| 0 <= j < k ==> t[j] != ' ';
        t.subrange(k + 1, t.len() as int)
    } else {
        Seq::empty()
    }
}

/// Splits an instruction's text at its first space.
fn split_text(text: &String) -> (r: (String, String))
    ensures
        r.0@ == mnemonic_of(text@),
        r.1@ == operands_of(text@),
{
    let s = text.as_str();
    let n = s.unicode_len();
    let mut k: usize = 0;
    while k < n
        invariant
            n == text@.len(),
            s@ == text@,
            k <= n,
            forall|j: int| 0 <= j < k ==> text@[j] != ' ',
        decreases n - k,
    {
        if s.get_char(k) == ' ' {
            let ghost t = text@;
            assert(exists|m: int| 0 <= m < t.len() && t[m] == ' ');
            let ghost c = choose|m: int|
                0 <= m < t.len() && t[m] == ' ' && forall|j: int| 0 <= j < m ==> t[j] != ' ';
            assert(c == k) by {
                if c < k {
                    assert(t[c] != ' ');
                } else if c > k {
                    assert(t[k as int] != ' ');
                }
            }
            let mnemonic = s.substring_char(0, k).to_owned();
            let operands = s.substring_char(k + 1, n).to_owned();
            return (mnemonic, operands);
        }
        k = k + 1;
    }
    (text.clone(), String::new())
}

/// One decoded instruction: where it starts, how many bytes it takes, and
/// its text split into mnemonic and operands.
#[derive(PartialEq, Eq, Debug, Clone)]
pub struct Instruction {
    pub address: u64,
    pub length: usize,
    pub mnemonic: String,
    pub operands: String,
}

/// The instructions of a buffer and, for each byte, the ordinal of the
/// instruction that holds it.
#[derive(PartialEq, Eq, Debug, Clone)]
pub struct InstructionIndex {
    pub instructions: Vec<Instruction>,
    pub offsets: Vec<usize>,
}

impl InstructionIndex {
    /// Every byte offset below `n` maps to an instruction that holds it.
    pub open spec fn covers(&self, n: nat) -> bool {
        &&& self.offsets@.len() == n
        &&& forall|i: int|
            0 <= i < n ==> {
                &&& #[trigger] self.offsets@[i] < self.instructions@.len()
                &&& self.instructions@[self.offsets@[i] as int].address <= i
                &&& i < self.instructions@[self.offsets@[i] as int].address
                    + self.instructions@[self.offsets@[i] as int].length
            }
    }

    /// The instructions are those of a linear sweep of `code` from offset 0.
    pub open spec fn sweeps(&self, code: Seq<u8>, bitness: u32) -> bool {
        let s = sweep(code, bitness, 0);
        &&& self.instructions@.len() == s.len()
        &&& forall|k: int|
            0 <= k < s.len() ==> {
                &&& #[trigger] self.instructions@[k].address == s[k].0
                &&& self.instructions@[k].length == s[k].1
                &&& self.instructions@[k].mnemonic@ == mnemonic_of(
                    decoded_text(
                        code.subrange(s[k].0, code.len() as int),
                        bitness,
                        s[k].0 as u64,
                    ),
                )
                &&& self.instructions@[k].operands@ == operands_of(
                    decoded_text(
                        code.subrange(s[k].0, code.len() as int),
                        bitness,
                        s[k].0 as u64,
                    ),
                )
            }
    }

    /// Decodes `bytes` by a linear sweep from offset 0 and maps every offset
    /// to the instruction that holds it.
    pub fn build(bytes: &[u8], bitness: u32) -> (r: InstructionIndex)
        requires
            valid_bitness(bitness),
        ensures
            r.covers(bytes@.len()),
            r.sweeps(bytes@, bitness),
    {
        let len = bytes.len();
        let mut instructions: Vec<Instruction> = Vec::new();
        let mut offsets: Vec<usize> = Vec::new();
        let mut pos: usize = 0;
        while pos < len
            invariant
                len == bytes@.len(),
                valid_bitness(bitness),
                pos <= len,
                offsets@.len() == pos,
                instructions@.len() + sweep(bytes@, bitness, pos as int).len() == sweep(
                    bytes@,
                    bitness,
                    0,
                ).len(),
                forall|k: int|
                    0 <= k < instructions@.len() ==> {
                        &&& #[trigger] instructions@[k].address == sweep(bytes@, bitness, 0)[k].0
                        &&& instructions@[k].length == sweep(bytes@, bitness, 0)[k].1
                        &&& instructions@[k].mnemonic@ == mnemonic_of(
                            decoded_text(
                                bytes@.subrange(instructions@[k].address as int, len as int),
                                bitness,
                                instructions@[k].address,
                            ),
                        )
                        &&& instructions@[k].operands@ == operands_of(
                            decoded_text(
                                bytes@.subrange(instructions@[k].address as int, len as int),
                                bitness,
                                instructions@[k].address,
                            ),
                        )
                    },
                forall|k: int|
                    0 <= k < sweep(bytes@, bitness, pos as int).len() ==> #[trigger] sweep(
                        bytes@,
                        bitness,
                        pos as int,
                    )[k] == sweep(bytes@, bitness, 0)[instructions@.len() + k],
                forall|i: int|
                    0 <= i < pos ==> {
                        &&& #[trigger] offsets@[i] < instructions@.len()
                        &&& instructions@[offsets@[i] as int].address <= i
                        &&& i < instructions@[offsets@[i] as int].address
                            + instructions@[offsets@[i] as int].length
                    },
            decreases len - pos,
        {
            let n = decode_length(bytes, pos, bitness);
            let text = instruction_text(bytes, pos, bitness);
            let (mnemonic, operands) = split_text(&text);
            let ordinal = instructions.len();
            proof {
                let rest = sweep(bytes@, bitness, pos + n);
                assert(sweep(bytes@, bitness, pos as int) == seq![(pos as int, n as int)] + rest);
                assert(sweep(bytes@, bitness, pos as int)[0] == (pos as int, n as int));
                assert forall|k: int| 0 <= k < rest.len() implies #[trigger] rest[k] == sweep(
                    bytes@,
                    bitness,
                    0,
                )[ordinal + 1 + k] by {
                    assert(rest[k] == sweep(bytes@, bitness, pos as int)[k + 1]);
                }
            }
            instructions.push(
                Instruction { address: pos as u64, length: n, mnemonic, operands },
            );
            let end = pos + n;
            while pos < end
                invariant
                    len == bytes@.len(),
                    end <= len,
                    offsets@.len() == pos,
                    pos <= end,
                    ordinal < instructions@.len(),
                    instructions@[ordinal as int].address as int + instructions@[ordinal as int].length
                        == end,
                    instructions@[ordinal as int].address <= pos,
                    forall|i: int|
                        0 <= i < pos ==> {
                            &&& #[trigger] offsets@[i] < instructions@.len()
                            &&& instructions@[offsets@[i] as int].address <= i
                            &&& i < instructions@[offsets@[i] as int].address
                                + instructions@[offsets@[i] as int].length
                        },
                decreases end - pos,
            {
                offsets.push(ordinal);
                pos = pos + 1;
            }
        }
        proof {
            let s = sweep(bytes@, bitness, pos as int);
            assert(s.len() == 0);
        }
        InstructionIndex { instructions, offsets }
    }
}

} // verus!
