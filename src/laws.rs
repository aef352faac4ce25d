//! Properties of the instruction semantics that hold for every machine state.
use vstd::prelude::*;

use crate::display::{on_screen, Display};
use crate::instruction::{operands_in_range, Instruction};
use crate::machine::{
    draw_collides, execute, fetched, flag, lit_after_draw, screen_after, sprite_collides,
    sprite_covers, step_result, InputKey, MachineState,
};

verus! {

/// Instructions that may skip the next one.
pub open spec fn is_skip(ins: Instruction) -> bool {
    ins is SkipIfEqual || ins is SkipIfNotEqual || ins is SkipIfRegistersEqual
        || ins is SkipIfRegistersNotEqual || ins is SkipIfKeyPressed || ins is SkipIfKeyNotPressed
}

/// Instructions that set the program counter to an address of their own.
pub open spec fn is_transfer(ins: Instruction) -> bool {
    ins is Jump || ins is Call || ins is Return || ins is JumpWithOffset
}

/// A successful step whose instruction is no jump, call or return moves the
/// program counter exactly past the instruction; a skip moves it past one
/// more; waiting for a key with none released keeps it where it was.
pub proof fn lemma_pc_advances(
    s: MachineState,
    d: Display,
    keys: Seq<bool>,
    released: Option<InputKey>,
    random: u8,
)
    requires
        s.v.len() == 16,
        fetched(s) is Ok,
        !is_transfer(fetched(s)->Ok_0),
        step_result(s, d, keys, released, random) is Ok,
    ensures
        ({
            let ins = fetched(s)->Ok_0;
            let pc = step_result(s, d, keys, released, random)->Ok_0.0.pc;
            &&& is_skip(ins) ==> pc == s.pc + 2 || pc == s.pc + 4
            &&& ins is WaitForKey ==> pc == if released is Some {
                s.pc + 2
            } else {
                s.pc
            }
            &&& !is_skip(ins) && !(ins is WaitForKey) ==> pc == s.pc + 2
        }),
{
}

/// 6XNN followed by 7XNN leaves VX equal to NN + K modulo 256, and every
/// other register as it was.
pub proof fn lemma_set_then_add(
    s: MachineState,
    x: u8,
    nn: u8,
    k: u8,
    keys: Seq<bool>,
    released: Option<InputKey>,
    random: u8,
)
    requires
        s.v.len() == 16,
        x < 16,
    ensures
        ({
            let s1 = execute(s, Instruction::SetImmediate { x, nn }, keys, released, random, false);
            &&& s1 is Ok
            &&& ({
                let s2 = execute(
                    s1->Ok_0.0,
                    Instruction::AddImmediate { x, nn: k },
                    keys,
                    released,
                    random,
                    false,
                );
                &&& s2 is Ok
                &&& s2->Ok_0.0.v[x as int] == (nn + k) % 256
                &&& forall|r: int| 0 <= r < 16 && r != x ==> #[trigger] s2->Ok_0.0.v[r] == s.v[r]
            })
        }),
{
}

/// 8XY4 leaves VF at 1 exactly when VX + VY exceeds 255, and VX at their sum
/// modulo 256.
pub proof fn lemma_add_overflow(
    s: MachineState,
    x: u8,
    y: u8,
    keys: Seq<bool>,
    released: Option<InputKey>,
    random: u8,
)
    requires
        s.v.len() == 16,
        x < 15,
        y < 16,
    ensures
        ({
            let r = execute(s, Instruction::Add { x, y }, keys, released, random, false);
            &&& r is Ok
            &&& r->Ok_0.0.v[15] == flag(s.v[x as int] + s.v[y as int] > 255)
            &&& r->Ok_0.0.v[x as int] == (s.v[x as int] + s.v[y as int]) % 256
        }),
{
}

/// 8XY5 leaves VF at 1 exactly when VX is strictly greater than VY, and VX at
/// VX - VY modulo 256.
pub proof fn lemma_sub_no_borrow(
    s: MachineState,
    x: u8,
    y: u8,
    keys: Seq<bool>,
    released: Option<InputKey>,
    random: u8,
)
    requires
        s.v.len() == 16,
        x < 15,
        y < 16,
    ensures
        ({
            let r = execute(s, Instruction::Sub { x, y }, keys, released, random, false);
            &&& r is Ok
            &&& r->Ok_0.0.v[15] == flag(s.v[x as int] > s.v[y as int])
            &&& r->Ok_0.0.v[x as int] == (s.v[x as int] - s.v[y as int]) % 256
        }),
{
}

/// Flipping the pixels a sprite covers twice gives back the screen, and the
/// second flipping turns a pixel off exactly when the first turned one on.
pub proof fn lemma_flip_twice(
    d0: Display,
    d1: Display,
    d2: Display,
    mem: Seq<u8>,
    i: int,
    x0: int,
    y0: int,
    n: int,
)
    requires
        d0.on_visible(),
        d1.colors == d0.colors,
        forall|a: int, b: int|
            on_screen(a, b) ==> #[trigger] d1.lit(a, b) == lit_after_draw(d0, mem, i, x0, y0, n, a, b),
        forall|a: int, b: int|
            on_screen(a, b) ==> #[trigger] d2.lit(a, b) == lit_after_draw(d1, mem, i, x0, y0, n, a, b),
    ensures
        forall|a: int, b: int| on_screen(a, b) ==> #[trigger] d2.lit(a, b) == d0.lit(a, b),
        sprite_collides(d1, mem, i, x0, y0, n) == exists|a: int, b: int|
            #[trigger] sprite_covers(mem, i, x0, y0, n, a, b) && !d0.lit(a, b),
{
    assert forall|a: int, b: int| on_screen(a, b) implies #[trigger] d2.lit(a, b) == d0.lit(a, b) by {
        assert(d1.lit(a, b) == lit_after_draw(d0, mem, i, x0, y0, n, a, b));
    }
    if exists|a: int, b: int| #[trigger] sprite_covers(mem, i, x0, y0, n, a, b) && !d0.lit(a, b) {
        let (a, b) = choose|a: int, b: int|
            #[trigger] sprite_covers(mem, i, x0, y0, n, a, b) && !d0.lit(a, b);
        assert(d1.lit(a, b) == lit_after_draw(d0, mem, i, x0, y0, n, a, b));
    }
    if sprite_collides(d1, mem, i, x0, y0, n) {
        let (a, b) = choose|a: int, b: int|
            #[trigger] sprite_covers(mem, i, x0, y0, n, a, b) && d1.lit(a, b);
        assert(d1.lit(a, b) == lit_after_draw(d0, mem, i, x0, y0, n, a, b));
    }
}

/// Drawing the same sprite twice at the same place restores every pixel of
/// the screen (so on a blank screen it clears all the pixels it lit), and the
/// second drawing reports a collision exactly when the first lit a pixel.
pub proof fn lemma_draw_twice(
    s0: MachineState,
    x: u8,
    y: u8,
    n: u8,
    keys: Seq<bool>,
    released: Option<InputKey>,
    random: u8,
    d0: Display,
    d1: Display,
    d2: Display,
)
    requires
        s0.v.len() == 16,
        x < 15,
        y < 15,
        n < 16,
        d0.on_visible(),
        d1.colors == d0.colors,
        execute(
            s0,
            Instruction::Draw { x, y, n },
            keys,
            released,
            random,
            draw_collides(s0, Instruction::Draw { x, y, n }, d0),
        ) is Ok,
        screen_after(s0, Instruction::Draw { x, y, n }, d0, d1),
        screen_after(
            execute(
                s0,
                Instruction::Draw { x, y, n },
                keys,
                released,
                random,
                draw_collides(s0, Instruction::Draw { x, y, n }, d0),
            )->Ok_0.0,
            Instruction::Draw { x, y, n },
            d1,
            d2,
        ),
    ensures
        ({
            let ins = Instruction::Draw { x, y, n };
            let s1 = execute(s0, ins, keys, released, random, draw_collides(s0, ins, d0))->Ok_0.0;
            let r2 = execute(s1, ins, keys, released, random, draw_collides(s1, ins, d1));
            &&& r2 is Ok
            &&& forall|a: int, b: int| on_screen(a, b) ==> #[trigger] d2.lit(a, b) == d0.lit(a, b)
            &&& r2->Ok_0.0.v[15] == flag(
                exists|a: int, b: int|
                    #[trigger] sprite_covers(
                        s0.memory,
                        s0.index as int,
                        (s0.v[x as int] % 64) as int,
                        (s0.v[y as int] % 32) as int,
                        n as int,
                        a,
                        b,
                    ) && !d0.lit(a, b),
            )
        }),
{
    let ins = Instruction::Draw { x, y, n };
    let s1 = execute(s0, ins, keys, released, random, draw_collides(s0, ins, d0))->Ok_0.0;
    assert(s1.v[x as int] == s0.v[x as int] && s1.v[y as int] == s0.v[y as int]);
    assert(s1.memory == s0.memory && s1.index == s0.index);
    lemma_flip_twice(
        d0,
        d1,
        d2,
        s0.memory,
        s0.index as int,
        (s0.v[x as int] % 64) as int,
        (s0.v[y as int] % 32) as int,
        n as int,
    );
}

/// Storing V0..=VX at I with FX55, putting I back where it was, and loading
/// them with FX65 from there gives back the registers as they were.
pub proof fn lemma_store_load_round_trip(
    s0: MachineState,
    x: u8,
    keys: Seq<bool>,
    released: Option<InputKey>,
    random: u8,
)
    requires
        s0.v.len() == 16,
        s0.memory.len() == 4096,
        x < 16,
        execute(s0, Instruction::StoreRegisters { x }, keys, released, random, false) is Ok,
    ensures
        ({
            let s1 = execute(s0, Instruction::StoreRegisters { x }, keys, released, random, false)->Ok_0.0;
            let r = execute(
                MachineState { index: s0.index, ..s1 },
                Instruction::LoadRegisters { x },
                keys,
                released,
                random,
                false,
            );
            &&& r is Ok
            &&& r->Ok_0.0.v == s0.v
        }),
{
    let s1 = execute(s0, Instruction::StoreRegisters { x }, keys, released, random, false)->Ok_0.0;
    let r = execute(
        MachineState { index: s0.index, ..s1 },
        Instruction::LoadRegisters { x },
        keys,
        released,
        random,
        false,
    );
    assert(r->Ok_0.0.v =~= s0.v);
}

/// FX0A with no key released changes nothing: the same instruction is
/// fetched again next.
pub proof fn lemma_wait_without_key(s: MachineState, d: Display, keys: Seq<bool>, random: u8)
    requires
        fetched(s) is Ok,
        fetched(s)->Ok_0 is WaitForKey,
    ensures
        step_result(s, d, keys, None, random) == Ok::<(MachineState, bool), crate::machine::Chip8Error>(
            (s, false),
        ),
{
}

} // verus!
