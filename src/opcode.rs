//! Instruction decoding: a pure map from a raw 16-bit word to a tagged instruction.
use vstd::prelude::*;

verus! {

/// One decoded instruction. `x`/`y` name registers, `u8` fields are literals,
/// address fields are 12-bit.
#[allow(non_camel_case_types)]
#[derive(Clone, Copy, Debug, PartialEq, Eq, Structural)]
pub enum Opcode {
    /// 0nnn - SYS addr
    SYS_addr(usize),
    /// 00E0 - CLS
    CLS,
    /// 00EE - RET
    RET,
    /// 1nnn - JP addr
    JP_addr(usize),
    /// 2nnn - CALL addr
    CALL_addr(usize),
    /// 3xkk - SE Vx, byte
    SE_Vx_byte(usize, u8),
    /// 4xkk - SNE Vx, byte
    SNE_Vx_byte(usize, u8),
    /// 5xy0 - SE Vx, Vy
    SE_Vx_Vy(usize, usize),
    /// 6xkk - LD Vx, byte
    LD_Vx_byte(usize, u8),
    /// 7xkk - ADD Vx, byte
    ADD_Vx_byte(usize, u8),
    /// 8xy0 - LD Vx, Vy
    LD_Vx_Vy(usize, usize),
    /// 8xy1 - OR Vx, Vy
    OR_Vx_Vy(usize, usize),
    /// 8xy2 - AND Vx, Vy
    AND_Vx_Vy(usize, usize),
    /// 8xy3 - XOR Vx, Vy
    XOR_Vx_Vy(usize, usize),
    /// 8xy4 - ADD Vx, Vy
    ADD_Vx_Vy(usize, usize),
    /// 8xy5 - SUB Vx, Vy
    SUB_Vx_Vy(usize, usize),
    /// 8xy6 - SHR Vx {, Vy}
    SHR_Vx_Vy(usize, usize),
    /// 8xy7 - SUBN Vx, Vy
    SUBN_Vx_Vy(usize, usize),
    /// 8xyE - SHL Vx {, Vy}
    SHL_Vx_Vy(usize, usize),
    /// 9xy0 - SNE Vx, Vy
    SNE_Vx_Vy(usize, usize),
    /// Annn - LD I, addr
    LD_I_addr(usize),
    /// Bnnn - JP V0, addr
    JP_V0_addr(usize),
    /// Cxkk - RND Vx, byte
    RND_Vx_byte(usize, u8),
    /// Dxyn - DRW Vx, Vy, nibble
    DRW_Vx_Vy_nibble(usize, usize, u8),
    /// Ex9E - SKP Vx
    SKP_Vx(usize),
    /// ExA1 - SKNP Vx
    SKNP_Vx(usize),
    /// Fx07 - LD Vx, DT
    LD_Vx_DT(usize),
    /// Fx0A - LD Vx, K
    LD_Vx_K(usize),
    /// Fx15 - LD DT, Vx
    LD_DT_Vx(usize),
    /// Fx18 - LD ST, Vx
    LD_ST_Vx(usize),
    /// Fx1E - ADD I, Vx
    ADD_I_Vx(usize),
    /// Fx29 - LD F, Vx
    LD_F_Vx(usize),
    /// Fx33 - LD B, Vx
    LD_B_Vx(usize),
    /// Fx55 - LD [I], Vx
    LD_I_Vx(usize),
    /// Fx65 - LD Vx, [I]
    LD_Vx_I(usize),
}

/// The high nibble of an opcode: the instruction group.
pub open spec fn hi_of(op: u16) -> int {
    op as int / 4096
}

/// The second nibble (`x` register).
pub open spec fn x_of(op: u16) -> usize {
    ((op as int / 256) % 16) as usize
}

/// The third nibble (`y` register).
pub open spec fn y_of(op: u16) -> usize {
    ((op as int / 16) % 16) as usize
}

/// The low nibble (`n`).
pub open spec fn n_of(op: u16) -> u8 {
    (op as int % 16) as u8
}

/// The low byte (`kk`).
pub open spec fn kk_of(op: u16) -> u8 {
    (op as int % 256) as u8
}

/// The low twelve bits (`nnn`).
pub open spec fn nnn_of(op: u16) -> usize {
    (op as int % 4096) as usize
}

/// The opcode table: which instruction a 16-bit word encodes, if any.
pub open spec fn spec_decode(op: u16) -> Option<Opcode> {
    let (hi, x, y, n, kk, nnn) = (hi_of(op), x_of(op), y_of(op), n_of(op), kk_of(op), nnn_of(op));
    if op == 0x00E0 {
        Some(Opcode::CLS)
    } else if op == 0x00EE {
        Some(Opcode::RET)
    } else if hi == 0x0 {
        Some(Opcode::SYS_addr(nnn))
    } else if hi == 0x1 {
        Some(Opcode::JP_addr(nnn))
    } else if hi == 0x2 {
        Some(Opcode::CALL_addr(nnn))
    } else if hi == 0x3 {
        Some(Opcode::SE_Vx_byte(x, kk))
    } else if hi == 0x4 {
        Some(Opcode::SNE_Vx_byte(x, kk))
    } else if hi == 0x5 {
        if n == 0 { Some(Opcode::SE_Vx_Vy(x, y)) } else { None }
    } else if hi == 0x6 {
        Some(Opcode::LD_Vx_byte(x, kk))
    } else if hi == 0x7 {
        Some(Opcode::ADD_Vx_byte(x, kk))
    } else if hi == 0x8 {
        if n == 0x0 {
            Some(Opcode::LD_Vx_Vy(x, y))
        } else if n == 0x1 {
            Some(Opcode::OR_Vx_Vy(x, y))
        } else if n == 0x2 {
            Some(Opcode::AND_Vx_Vy(x, y))
        } else if n == 0x3 {
            Some(Opcode::XOR_Vx_Vy(x, y))
        } else if n == 0x4 {
            Some(Opcode::ADD_Vx_Vy(x, y))
        } else if n == 0x5 {
            Some(Opcode::SUB_Vx_Vy(x, y))
        } else if n == 0x6 {
            Some(Opcode::SHR_Vx_Vy(x, y))
        } else if n == 0x7 {
            Some(Opcode::SUBN_Vx_Vy(x, y))
        } else if n == 0xE {
            Some(Opcode::SHL_Vx_Vy(x, y))
        } else {
            None
        }
    } else if hi == 0x9 {
        if n == 0 { Some(Opcode::SNE_Vx_Vy(x, y)) } else { None }
    } else if hi == 0xA {
        Some(Opcode::LD_I_addr(nnn))
    } else if hi == 0xB {
        Some(Opcode::JP_V0_addr(nnn))
    } else if hi == 0xC {
        Some(Opcode::RND_Vx_byte(x, kk))
    } else if hi == 0xD {
        Some(Opcode::DRW_Vx_Vy_nibble(x, y, n))
    } else if hi == 0xE {
        if kk == 0x9E {
            Some(Opcode::SKP_Vx(x))
        } else if kk == 0xA1 {
            Some(Opcode::SKNP_Vx(x))
        } else {
            None
        }
    } else {
        if kk == 0x07 {
            Some(Opcode::LD_Vx_DT(x))
        } else if kk == 0x0A {
            Some(Opcode::LD_Vx_K(x))
        } else if kk == 0x15 {
            Some(Opcode::LD_DT_Vx(x))
        } else if kk == 0x18 {
            Some(Opcode::LD_ST_Vx(x))
        } else if kk == 0x1E {
            Some(Opcode::ADD_I_Vx(x))
        } else if kk == 0x29 {
            Some(Opcode::LD_F_Vx(x))
        } else if kk == 0x33 {
            Some(Opcode::LD_B_Vx(x))
        } else if kk == 0x55 {
            Some(Opcode::LD_I_Vx(x))
        } else if kk == 0x65 {
            Some(Opcode::LD_Vx_I(x))
        } else {
            None
        }
    }
}

/// Every operand of an instruction lies in its field's range: registers
/// below 16, addresses below 4096, sprite heights below 16.
pub open spec fn operands_in_range(op: Opcode) -> bool {
    match op {
        Opcode::SYS_addr(a) | Opcode::JP_addr(a) | Opcode::CALL_addr(a) | Opcode::LD_I_addr(a)
        | Opcode::JP_V0_addr(a) => a < 4096,
        Opcode::CLS | Opcode::RET => true,
        Opcode::SE_Vx_byte(x, _) | Opcode::SNE_Vx_byte(x, _) | Opcode::LD_Vx_byte(x, _)
        | Opcode::ADD_Vx_byte(x, _) | Opcode::RND_Vx_byte(x, _) => x < 16,
        Opcode::SE_Vx_Vy(x, y) | Opcode::LD_Vx_Vy(x, y) | Opcode::OR_Vx_Vy(x, y)
        | Opcode::AND_Vx_Vy(x, y) | Opcode::XOR_Vx_Vy(x, y) | Opcode::ADD_Vx_Vy(x, y)
        | Opcode::SUB_Vx_Vy(x, y) | Opcode::SHR_Vx_Vy(x, y) | Opcode::SUBN_Vx_Vy(x, y)
        | Opcode::SHL_Vx_Vy(x, y) | Opcode::SNE_Vx_Vy(x, y) => x < 16 && y < 16,
        Opcode::DRW_Vx_Vy_nibble(x, y, n) => x < 16 && y < 16 && n < 16,
        Opcode::SKP_Vx(x) | Opcode::SKNP_Vx(x) | Opcode::LD_Vx_DT(x) | Opcode::LD_Vx_K(x)
        | Opcode::LD_DT_Vx(x) | Opcode::LD_ST_Vx(x) | Opcode::ADD_I_Vx(x) | Opcode::LD_F_Vx(x)
        | Opcode::LD_B_Vx(x) | Opcode::LD_I_Vx(x) | Opcode::LD_Vx_I(x) => x < 16,
    }
}

/// Splits an opcode into its `x` register and its low byte.
pub fn dec_xkk(op: u16) -> (r: (usize, u8))
    ensures
        r == (x_of(op), kk_of(op)),
{
    proof {
        assert(((op >> 8u16) & 0xFu16) == (op / 256) % 16) by (bit_vector);
        assert((op & 0xFFu16) == op % 256) by (bit_vector);
    }
    (((op >> 8) & 0xF) as usize, (op & 0xFF) as u8)
}

/// The twelve-bit address of an opcode.
pub fn dec_nnn(op: u16) -> (r: usize)
    ensures
        r == nnn_of(op),
{
    proof {
        assert((op & 0xFFFu16) == op % 4096) by (bit_vector);
    }
    (op & 0xFFF) as usize
}

/// Splits an opcode into its `x` and `y` registers and its low nibble.
pub fn dec_xyn(op: u16) -> (r: (usize, usize, u8))
    ensures
        r == (x_of(op), y_of(op), n_of(op)),
{
    proof {
        assert(((op >> 8u16) & 0xFu16) == (op / 256) % 16) by (bit_vector);
        assert(((op >> 4u16) & 0xFu16) == (op / 16) % 16) by (bit_vector);
        assert((op & 0xFu16) == op % 16) by (bit_vector);
    }
    (((op >> 8) & 0xF) as usize, ((op >> 4) & 0xF) as usize, (op & 0xF) as u8)
}

impl Opcode {
    /// Decodes a raw opcode; `None` for a word that encodes no instruction.
    pub fn decode(op: u16) -> (r: Option<Opcode>)
        ensures
            r == spec_decode(op),
            r matches Some(o) ==> operands_in_range(o),
    {
        let (x, y, n) = dec_xyn(op);
        let (_, kk) = dec_xkk(op);
        let nnn = dec_nnn(op);
        let hi = op >> 12;
        proof {
            assert((op >> 12u16) == op / 4096) by (bit_vector);
        }
        if op == 0x00E0 {
            Some(Opcode::CLS)
        } else if op == 0x00EE {
            Some(Opcode::RET)
        } else if hi == 0x0 {
            Some(Opcode::SYS_addr(nnn))
        } else if hi == 0x1 {
            Some(Opcode::JP_addr(nnn))
        } else if hi == 0x2 {
            Some(Opcode::CALL_addr(nnn))
        } else if hi == 0x3 {
            Some(Opcode::SE_Vx_byte(x, kk))
        } else if hi == 0x4 {
            Some(Opcode::SNE_Vx_byte(x, kk))
        } else if hi == 0x5 {
            if n == 0 { Some(Opcode::SE_Vx_Vy(x, y)) } else { None }
        } else if hi == 0x6 {
            Some(Opcode::LD_Vx_byte(x, kk))
        } else if hi == 0x7 {
            Some(Opcode::ADD_Vx_byte(x, kk))
        } else if hi == 0x8 {
            if n == 0x0 {
                Some(Opcode::LD_Vx_Vy(x, y))
            } else if n == 0x1 {
                Some(Opcode::OR_Vx_Vy(x, y))
            } else if n == 0x2 {
                Some(Opcode::AND_Vx_Vy(x, y))
            } else if n == 0x3 {
                Some(Opcode::XOR_Vx_Vy(x, y))
            } else if n == 0x4 {
                Some(Opcode::ADD_Vx_Vy(x, y))
            } else if n == 0x5 {
                Some(Opcode::SUB_Vx_Vy(x, y))
            } else if n == 0x6 {
                Some(Opcode::SHR_Vx_Vy(x, y))
            } else if n == 0x7 {
                Some(Opcode::SUBN_Vx_Vy(x, y))
            } else if n == 0xE {
                Some(Opcode::SHL_Vx_Vy(x, y))
            } else {
                None
            }
        } else if hi == 0x9 {
            if n == 0 { Some(Opcode::SNE_Vx_Vy(x, y)) } else { None }
        } else if hi == 0xA {
            Some(Opcode::LD_I_addr(nnn))
        } else if hi == 0xB {
            Some(Opcode::JP_V0_addr(nnn))
        } else if hi == 0xC {
            Some(Opcode::RND_Vx_byte(x, kk))
        } else if hi == 0xD {
            Some(Opcode::DRW_Vx_Vy_nibble(x, y, n))
        } else if hi == 0xE {
            if kk == 0x9E {
                Some(Opcode::SKP_Vx(x))
            } else if kk == 0xA1 {
                Some(Opcode::SKNP_Vx(x))
            } else {
                None
            }
        } else {
            if kk == 0x07 {
                Some(Opcode::LD_Vx_DT(x))
            } else if kk == 0x0A {
                Some(Opcode::LD_Vx_K(x))
            } else if kk == 0x15 {
                Some(Opcode::LD_DT_Vx(x))
            } else if kk == 0x18 {
                Some(Opcode::LD_ST_Vx(x))
            } else if kk == 0x1E {
                Some(Opcode::ADD_I_Vx(x))
            } else if kk == 0x29 {
                Some(Opcode::LD_F_Vx(x))
            } else if kk == 0x33 {
                Some(Opcode::LD_B_Vx(x))
            } else if kk == 0x55 {
                Some(Opcode::LD_I_Vx(x))
            } else if kk == 0x65 {
                Some(Opcode::LD_Vx_I(x))
            } else {
                None
            }
        }
    }
}

} // verus!
