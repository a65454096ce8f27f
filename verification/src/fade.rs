//! Fading the backlight from one level to another.
use vstd::prelude::*;

use crate::decimal::i32_numeral;
#[allow(unused_imports)]
use crate::decimal::int_digits;
#[allow(unused_imports)]
use crate::nodes::effects;
use crate::nodes::{Command, Effect, Node};

verus! {

/// The level that the panel is lit at.
pub const TARGET_BRIGHTNESS: i32 = 180;

/// How long each level of a fade is held, in microseconds.
pub const FADE_DELAY_US: u64 = 2000;

/// How many levels a fade goes through: none where there is nothing to change,
/// and otherwise both ends and all between them.
pub open spec fn fade_len(from: int, to: int) -> nat {
    if from == to {
        0
    } else if from < to {
        (to - from + 1) as nat
    } else {
        (from - to + 1) as nat
    }
}

/// The level that comes `i` steps after `from`, on the way to `to`.
pub open spec fn fade_level(from: int, to: int, i: int) -> int {
    if from < to {
        from + i
    } else {
        from - i
    }
}

/// The levels that a fade goes through, in order.
pub open spec fn fade_levels(from: int, to: int) -> Seq<int> {
    Seq::new(fade_len(from, to), |i: int| fade_level(from, to, i))
}

/// Setting the backlight to a level.
pub open spec fn set_level(level: int) -> Effect {
    Effect::Write { node: Node::Backlight, data: int_digits(level) }
}

/// Holding the level that was set.
pub open spec fn hold_level() -> Effect {
    Effect::Pause { micros: FADE_DELAY_US as nat }
}

/// Setting each of `levels` in turn, and holding it.
pub open spec fn level_effects(levels: Seq<int>) -> Seq<Effect>
    decreases levels.len(),
{
    if levels.len() == 0 {
        Seq::empty()
    } else {
        level_effects(levels.drop_last()).push(set_level(levels.last())).push(hold_level())
    }
}

/// What a fade does.
pub open spec fn fade_effects(from: int, to: int) -> Seq<Effect> {
    level_effects(fade_levels(from, to))
}

/// Fades the backlight from `from` to `to`, both included, one level at a time.
/// Where the two are the same, nothing is written.
pub fn fade_brightness(from: i32, to: i32) -> (commands: Vec<Command>)
    ensures
        effects(commands@) == fade_effects(from as int, to as int),
{
    let mut commands: Vec<Command> = Vec::new();
    let ghost levels = fade_levels(from as int, to as int);
    if from == to {
        assert(effects(commands@) =~= fade_effects(from as int, to as int));
        return commands;
    }
    let step: i32 = if from < to {
        1
    } else {
        -1
    };
    let mut cur: i32 = from;
    let ghost mut done: int = 0;
    assert(levels.take(0) =~= Seq::<int>::empty());
    assert(effects(commands@) =~= level_effects(levels.take(0)));
    loop
        invariant_except_break
            from != to,
            levels == fade_levels(from as int, to as int),
            step == if from < to {
                1i32
            } else {
                -1i32
            },
            0 <= done < levels.len(),
            cur == fade_level(from as int, to as int, done),
            effects(commands@) == level_effects(levels.take(done)),
        ensures
            effects(commands@) == level_effects(levels),
        decreases levels.len() - done,
    {
        let ghost before = commands@;
        commands.push(Command::Write { node: Node::Backlight, data: i32_numeral(cur) });
        commands.push(Command::Pause { micros: FADE_DELAY_US });
        proof {
            let more = levels.take(done + 1);
            assert(more.drop_last() =~= levels.take(done));
            assert(more.last() == cur as int);
            assert(effects(commands@) =~= effects(before).push(set_level(cur as int)).push(
                hold_level(),
            ));
        }
        if cur == to {
            assert(levels.take(done + 1) =~= levels);
            break ;
        }
        cur = cur + step;
        proof {
            done = done + 1;
        }
    }
    commands
}

/// A fade starts at one end, finishes at the other, moves by one level at a
/// time and never leaves the range between the ends.
pub proof fn law_fade_is_gradual(from: int, to: int)
    requires
        from != to,
    ensures
        fade_levels(from, to).len() >= 2,
        fade_levels(from, to).first() == from,
        fade_levels(from, to).last() == to,
        forall|i: int|
            0 <= i < fade_levels(from, to).len() - 1 ==> {
                let step = #[trigger] fade_levels(from, to)[i + 1] - fade_levels(from, to)[i];
                step == if from < to {
                    1int
                } else {
                    -1int
                }
            },
        forall|i: int|
            0 <= i < fade_levels(from, to).len() ==> {
                let level = #[trigger] fade_levels(from, to)[i];
                (from <= level <= to) || (to <= level <= from)
            },
{
}

/// Fading out goes through the levels of fading in, backwards.
pub proof fn law_fade_reverses(from: int, to: int)
    ensures
        fade_levels(to, from) == fade_levels(from, to).reverse(),
{
    assert(fade_levels(to, from) =~= fade_levels(from, to).reverse());
}

/// A fade writes each of its levels once, in order, and holds each one.
pub proof fn law_fade_writes_each_level(levels: Seq<int>)
    ensures
        level_effects(levels).len() == 2 * levels.len(),
        forall|i: int|
            0 <= i < levels.len() ==> level_effects(levels)[2 * i] == set_level(
                #[trigger] levels[i],
            ) && level_effects(levels)[2 * i + 1] == hold_level(),
    decreases levels.len(),
{
    if levels.len() > 0 {
        let front = levels.drop_last();
        law_fade_writes_each_level(front);
        assert forall|i: int| 0 <= i < levels.len() implies level_effects(levels)[2 * i]
            == set_level(#[trigger] levels[i]) && level_effects(levels)[2 * i + 1]
            == hold_level() by {
            if i < front.len() {
                assert(front[i] == levels[i]);
            }
        }
    }
}

/// A fade between two levels writes the numeral of each level once, from the one end to
/// the other, and waits two milliseconds after each. A fade that has nowhere to go
/// does nothing.
pub proof fn law_fade_writes_and_waits(from: int, to: int)
    ensures
        from == to ==> fade_effects(from, to).len() == 0,
        from < to ==> fade_effects(from, to).len() == 2 * (to - from + 1),
        from > to ==> fade_effects(from, to).len() == 2 * (from - to + 1),
        from != to ==> forall|k: int|
            0 <= k < fade_effects(from, to).len() ==> #[trigger] fade_effects(from, to)[k] == if k
                % 2 == 0 {
                Effect::Write {
                    node: Node::Backlight,
                    data: int_digits(
                        if from < to {
                            from + k / 2
                        } else {
                            from - k / 2
                        },
                    ),
                }
            } else {
                Effect::Pause { micros: 2000 }
            },
{
    let levels = fade_levels(from, to);
    law_fade_writes_each_level(levels);
    if from != to {
        assert forall|k: int| 0 <= k < fade_effects(from, to).len() implies #[trigger] fade_effects(
            from,
            to,
        )[k] == if k % 2 == 0 {
            Effect::Write {
                node: Node::Backlight,
                data: int_digits(
                    if from < to {
                        from + k / 2
                    } else {
                        from - k / 2
                    },
                ),
            }
        } else {
            Effect::Pause { micros: 2000 }
        } by {
            let i = k / 2;
            assert(0 <= i < levels.len());
            let level = levels[i];
            assert(k == 2 * i || k == 2 * i + 1);
        }
    }
}

} // verus!
