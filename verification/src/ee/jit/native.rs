//! Which instructions are recompiled at all, for bringing up a host.

use vstd::prelude::*;
use crate::ee::exec::opcode;
use crate::ee::cpu::function;
use crate::ee::issue::rs;

verus! {

/// Groups of instructions that are recompiled, by name and separated by
/// commas; without a list, all. The interpreter runs the others.
pub struct Natives {
    pub list: Option<Vec<u8>>,
}

/// The group of an instruction, if any instruction of its kind is recompiled.
pub open spec fn group(instr: u32) -> Option<Seq<u8>> {
    let op = opcode(instr);
    let (s, f) = (rs(instr), function(instr));
    if (op == 0x00 && (f == 0x08 || f == 0x09)) || 0x01 <= op <= 0x07 || 0x14 <= op <= 0x17 {
        // branch
        Some(seq![0x62, 0x72, 0x61, 0x6E, 0x63, 0x68])
    } else if op == 0x00 && (f == 0x0A || f == 0x0B) {
        // cmov
        Some(seq![0x63, 0x6D, 0x6F, 0x76])
    } else if op == 0x00 {
        // special
        Some(seq![0x73, 0x70, 0x65, 0x63, 0x69, 0x61, 0x6C])
    } else if 0x08 <= op <= 0x0F || op == 0x18 || op == 0x19 || op == 0x2F {
        // imm
        Some(seq![0x69, 0x6D, 0x6D])
    } else if 0x20 <= op <= 0x27 || op == 0x37 || op == 0x31 {
        // load
        Some(seq![0x6C, 0x6F, 0x61, 0x64])
    } else if 0x28 <= op <= 0x2B || op == 0x3F || op == 0x39 {
        // store
        Some(seq![0x73, 0x74, 0x6F, 0x72, 0x65])
    } else if op == 0x1E || op == 0x1F || op == 0x36 || op == 0x3E {
        // quad
        Some(seq![0x71, 0x75, 0x61, 0x64])
    } else if op == 0x11 {
        // cop1
        Some(seq![0x63, 0x6F, 0x70, 0x31])
    } else if op == 0x10 && (s == 0 || s == 4 || (s >= 0x10 && (f == 0x38 || f == 0x39))) {
        // cop0
        Some(seq![0x63, 0x6F, 0x70, 0x30])
    } else if op == 0x12 && s != 0x08 {
        // cop2
        Some(seq![0x63, 0x6F, 0x70, 0x32])
    } else if op == 0x1C {
        // mmi
        Some(seq![0x6D, 0x6D, 0x69])
    } else {
        None
    }
}

pub open spec fn hex_digit(d: int) -> u8 {
    (if d < 10 {
        0x30 + d
    } else {
        0x57 + d
    }) as u8
}

/// The name of a SPECIAL function: `f` and its number in hexadecimal.
pub open spec fn function_name(instr: u32) -> Seq<u8> {
    seq![0x66, hex_digit(function(instr) as int / 16), hex_digit(function(instr) as int % 16)]
}

/// The list holds `name` at `a`, between commas.
pub open spec fn lists_at(list: Seq<u8>, name: Seq<u8>, a: int) -> bool {
    let b = a + name.len();
    &&& 0 <= a && b <= list.len()
    &&& a == 0 || list[a - 1] == 0x2C
    &&& b == list.len() || list[b] == 0x2C
    &&& list.subrange(a, b) == name
}

pub open spec fn lists(list: Seq<u8>, name: Seq<u8>) -> bool {
    exists|a: int| lists_at(list, name, a)
}

/// Whether an instruction may be recompiled: its group is listed, and of
/// the SPECIAL instructions the function as well.
pub open spec fn allowed(list: Option<Seq<u8>>, instr: u32) -> bool {
    match list {
        None => true,
        Some(l) => {
            &&& group(instr) matches Some(name) && lists(l, name)
            &&& opcode(instr) == 0 ==> lists(l, function_name(instr))
        },
    }
}

fn holds_at(list: &Vec<u8>, name: &Vec<u8>, a: usize) -> (r: bool)
    requires
        a + name@.len() <= list@.len(),
    ensures
        r == lists_at(list@, name@, a as int),
{
    let (n, len): (usize, usize) = (name.len(), list.len());
    if (a != 0 && list[a - 1] != 0x2C) || (a + n != len && list[a + n] != 0x2C) {
        return false;
    }
    for i in 0..n
        invariant
            n == name@.len(),
            len == list@.len(),
            a + n <= len,
            forall|k: int| 0 <= k < i ==> list@[a + k] == name@[k],
    {
        if list[a + i] != name[i] {
            assert(list@.subrange(a as int, a + n)[i as int] != name@[i as int]);
            return false;
        }
    }
    assert(list@.subrange(a as int, a + n) =~= name@);
    true
}

fn listed(list: &Vec<u8>, name: &Vec<u8>) -> (r: bool)
    ensures
        r == lists(list@, name@),
{
    let n: usize = name.len();
    if n > list.len() {
        return false;
    }
    let mut a: usize = 0;
    let end: usize = list.len() - n;
    while a <= end
        invariant
            n == name@.len(),
            end == list@.len() - n,
            a <= end + 1,
            forall|k: int| 0 <= k < a ==> !lists_at(list@, name@, k),
        decreases end + 1 - a,
    {
        if holds_at(list, name, a) {
            return true;
        }
        if a == end {
            return false;
        }
        a = a + 1;
    }
    false
}

fn group_of(instr: u32) -> (g: Option<Vec<u8>>)
    ensures
        match g {
            Some(name) => group(instr) == Some(name@),
            None => group(instr) is None,
        },
{
    let s: u32 = instr / 0x20_0000 % 32;
    let f: u32 = instr % 64;
    let g: Option<Vec<u8>> = match instr / 0x400_0000 {
        0x00 => match f {
            // branch
            0x08 | 0x09 => Some(vec![0x62, 0x72, 0x61, 0x6E, 0x63, 0x68]),
            // cmov
            0x0A | 0x0B => Some(vec![0x63, 0x6D, 0x6F, 0x76]),
            // special
            _ => Some(vec![0x73, 0x70, 0x65, 0x63, 0x69, 0x61, 0x6C]),
        },
        // branch
        0x01..=0x07 | 0x14..=0x17 => Some(vec![0x62, 0x72, 0x61, 0x6E, 0x63, 0x68]),
        // imm
        0x08..=0x0F | 0x18 | 0x19 | 0x2F => Some(vec![0x69, 0x6D, 0x6D]),
        // load
        0x20..=0x27 | 0x37 | 0x31 => Some(vec![0x6C, 0x6F, 0x61, 0x64]),
        // store
        0x28..=0x2B | 0x3F | 0x39 => Some(vec![0x73, 0x74, 0x6F, 0x72, 0x65]),
        // quad
        0x1E | 0x1F | 0x36 | 0x3E => Some(vec![0x71, 0x75, 0x61, 0x64]),
        // cop1
        0x11 => Some(vec![0x63, 0x6F, 0x70, 0x31]),
        0x10 => if s == 0 || s == 4 || (s >= 0x10 && (f == 0x38 || f == 0x39)) {
            // cop0
            Some(vec![0x63, 0x6F, 0x70, 0x30])
        } else {
            None
        },
        0x12 => if s != 0x08 {
            // cop2
            Some(vec![0x63, 0x6F, 0x70, 0x32])
        } else {
            None
        },
        // mmi
        0x1C => Some(vec![0x6D, 0x6D, 0x69]),
        _ => None,
    };
    if let Some(name) = &g {
        assert(name@ =~= group(instr)->Some_0);
    }
    g
}

fn digit(d: u32) -> (c: u8)
    requires
        d < 16,
    ensures
        c == hex_digit(d as int),
{
    if d < 10 {
        0x30 + d as u8
    } else {
        0x57 + d as u8
    }
}

impl Natives {
    pub open spec fn view(&self) -> Option<Seq<u8>> {
        match self.list {
            Some(l) => Some(l@),
            None => None,
        }
    }

    /// Everything that can be is recompiled.
    pub fn all() -> (n: Self)
        ensures
            n@ is None,
    {
        Natives { list: None }
    }

    pub fn allows(&self, instr: u32) -> (r: bool)
        ensures
            r == allowed(self@, instr),
    {
        match &self.list {
            None => true,
            Some(list) => {
                let inside = match group_of(instr) {
                    Some(name) => listed(list, &name),
                    None => false,
                };
                if !inside || instr / 0x400_0000 != 0 {
                    return inside;
                }
                let f: u32 = instr % 64;
                let name: Vec<u8> = vec![0x66, digit(f / 16), digit(f % 16)];
                assert(name@ =~= function_name(instr));
                listed(list, &name)
            },
        }
    }
}

} // verus!
