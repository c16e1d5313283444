//! A model of the atomic write protocol: write the content to a fresh
//! temporary file in the destination's directory, rename it onto the
//! destination, and — where the platform refuses to rename over an
//! existing file — remove the destination and rename once more. The law
//! below shows that an interruption at any point leaves the destination
//! whole: the old content, the new content, or absent, never the
//! temporary file's partial bytes.
use vstd::prelude::*;

verus! {

use crate::text::dec_digits;
use crate::text::u64_to_dec;
use crate::text::push_chars;
use crate::text::push_str_chars;
use crate::text::chars_to_string;

/// The two files the protocol touches: the destination and the
/// temporary file, each absent or holding some content.
pub struct FsModel {
    pub dest: Option<Seq<char>>,
    pub temp: Option<Seq<char>>,
}

/// One step of the protocol. Writing the temporary file records whatever
/// bytes reached the disk; the rename moves the temporary file onto the
/// destination in one atomic step; the removal deletes the destination.
pub enum WriteStep {
    WriteTemp(Seq<char>),
    Rename,
    RemoveDest,
}

/// The filesystem after one step.
pub open spec fn apply_step(s: FsModel, step: WriteStep) -> FsModel {
    match step {
        WriteStep::WriteTemp(content) => FsModel { dest: s.dest, temp: Option::Some(content) },
        WriteStep::Rename => match s.temp {
            Option::Some(c) => FsModel { dest: Option::Some(c), temp: Option::None },
            Option::None => s,
        },
        WriteStep::RemoveDest => FsModel { dest: Option::None, temp: s.temp },
    }
}

/// The filesystem after a run of steps.
pub open spec fn run_steps(s: FsModel, steps: Seq<WriteStep>) -> FsModel
    decreases steps.len(),
{
    if steps.len() == 0 {
        s
    } else {
        run_steps(apply_step(s, steps[0]), steps.subrange(1, steps.len() as int))
    }
}

/// The step runs the writer may perform for new content `full`: the
/// direct rename, or the remove-and-retry fallback. An interruption
/// during the temporary write itself is the run that recorded only the
/// partial bytes.
pub open spec fn is_protocol_prefix(
    steps: Seq<WriteStep>,
    partial: Seq<char>,
    full: Seq<char>,
) -> bool {
    steps.is_prefix_of(seq![WriteStep::WriteTemp(partial)]) || steps.is_prefix_of(
        seq![WriteStep::WriteTemp(full), WriteStep::Rename],
    ) || steps.is_prefix_of(
        seq![WriteStep::WriteTemp(full), WriteStep::RemoveDest, WriteStep::Rename],
    )
}

/// Law: atomicity. However the protocol is interrupted — before or during
/// the temporary write (whatever partial bytes it left), before or after
/// the removal, before or after either rename — the destination holds the
/// old content in full, the new content in full, or nothing; never the
/// partial bytes.
pub proof fn lemma_atomic_write_protocol(
    old_dest: Option<Seq<char>>,
    partial: Seq<char>,
    full: Seq<char>,
    steps: Seq<WriteStep>,
)
    requires
        is_protocol_prefix(steps, partial, full),
    ensures
        ({
            let s = run_steps(FsModel { dest: old_dest, temp: Option::None }, steps);
            s.dest == old_dest || s.dest == Option::Some(full) || s.dest is None
        }),
{
    reveal_with_fuel(run_steps, 5);
    let s0 = FsModel { dest: old_dest, temp: Option::None };
    if steps.len() == 0 {
        assert(run_steps(s0, steps) == s0);
    } else if steps.len() == 1 {
        let s1 = apply_step(s0, steps[0]);
        assert(steps.subrange(1, 1) =~= Seq::<WriteStep>::empty());
        assert(run_steps(s0, steps) == s1);
    } else if steps.len() == 2 {
        let s1 = apply_step(s0, steps[0]);
        let rest1 = steps.subrange(1, 2);
        assert(rest1.len() == 1);
        let s2 = apply_step(s1, rest1[0]);
        assert(rest1.subrange(1, 1) =~= Seq::<WriteStep>::empty());
        assert(run_steps(s0, steps) == s2);
        assert(steps[0] == WriteStep::WriteTemp(full));
        assert(rest1[0] == steps[1]);
    } else {
        assert(steps.len() == 3);
        assert(steps[0] == WriteStep::WriteTemp(full));
        assert(steps[1] == WriteStep::RemoveDest);
        assert(steps[2] == WriteStep::Rename);
        let s1 = apply_step(s0, steps[0]);
        let rest1 = steps.subrange(1, 3);
        let s2 = apply_step(s1, rest1[0]);
        let rest2 = rest1.subrange(1, 2);
        let s3 = apply_step(s2, rest2[0]);
        assert(rest1[0] == steps[1] && rest2[0] == steps[2]);
        assert(rest2.subrange(1, 1) =~= Seq::<WriteStep>::empty());
        assert(run_steps(s0, steps) == s3);
    }
}

/// The temporary file's name, derived from a millisecond timestamp so
/// that concurrent writers do not collide on it.
pub open spec fn temp_file_name_spec(millis: u64) -> Seq<char> {
    ".config.tmp-"@ + dec_digits(millis as nat)
}

/// Builds the temporary file's name for the given timestamp.
pub fn temp_file_name(millis: u64) -> (r: String)
    ensures
        r@ == temp_file_name_spec(millis),
{
    let mut out: Vec<char> = Vec::new();
    push_str_chars(&mut out, ".config.tmp-");
    let stamp = u64_to_dec(millis);
    push_chars(&mut out, &stamp);
    chars_to_string(&out)
}

} // verus!
