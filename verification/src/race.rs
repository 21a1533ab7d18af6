//! Registrations that run side by side.
//!
//! Several registrations of one name may be under way at once. Each of them
//! talks to the table twice, once to search and once to insert, and between
//! the two any of the others may have its turn. The storage may also fail a
//! request, or carry it out and answer too late. This module describes every
//! such run and proves that the table's refusal of a second row is enough:
//! whatever the order of turns and whatever fails, at most one registration
//! creates the account, and where nothing fails exactly one does and all the
//! others end as duplicates.

use vstd::prelude::*;
use crate::account::{Account, ROLE_USER};
use crate::protocol::{location_of, transition, Ending, Phase, Signal, Task};
use crate::service::served;
use crate::store::{
    ascending, holds, lemma_lookup_holds, lemma_with_account, with_account, StoreError,
};
use crate::text::{lemma_precedes_irreflexive, precedes};

verus! {

/// A table and the registrations that are under way on it: for each, how
/// far it has come and what it has asked for.
pub struct World {
    pub rows: Seq<Account>,
    pub phases: Seq<Phase>,
    pub tasks: Seq<Task>,
}

/// What becomes of a request to the storage.
pub enum Fate {
    /// It is carried out and answered.
    Answered,
    /// It is refused with a failure, and nothing is changed.
    Refused,
    /// It is carried out, but the answer comes too late.
    Late,
    /// It is not carried out, and no answer comes in time.
    Lost,
}

/// One turn of a run: who has a request served, and what becomes of it.
pub struct Turn {
    pub who: int,
    pub fate: Fate,
}

/// What the registration is told when `task` meets `fate`, and the table
/// after it.
pub open spec fn treated(rows: Seq<Account>, task: Task, fate: Fate) -> (Seq<Account>, Signal) {
    match fate {
        Fate::Answered => served(rows, task),
        Fate::Refused => (
            rows,
            match task {
                Task::Find(_) => Signal::ReadFailed,
                _ => Signal::Stored(Err(StoreError::IoError)),
            },
        ),
        Fate::Late => (served(rows, task).0, Signal::TimedOut),
        Fate::Lost => (rows, Signal::TimedOut),
    }
}

/// One turn: the registration `turn.who` has what it asked for treated by
/// the storage, in one piece, and moves on. A registration that is over, or
/// one that does not exist, leaves everything as it is.
pub open spec fn take_turn(world: World, turn: Turn) -> World {
    let who = turn.who;
    if 0 <= who < world.phases.len() && who < world.tasks.len() && !(world.tasks[who] is Stop) {
        let answered = treated(world.rows, world.tasks[who], turn.fate);
        let moved = transition(world.phases[who], answered.1);
        World {
            rows: answered.0,
            phases: world.phases.update(who, moved.0),
            tasks: world.tasks.update(who, moved.1),
        }
    } else {
        world
    }
}

/// The world after the turns of `schedule`, taken in order.
pub open spec fn run(world: World, schedule: Seq<Turn>) -> World
    decreases schedule.len(),
{
    if schedule.len() == 0 {
        world
    } else {
        take_turn(run(world, schedule.drop_last()), schedule.last())
    }
}

/// Whether every request of `schedule` is carried out and answered.
pub open spec fn faultless(schedule: Seq<Turn>) -> bool {
    forall|k: int| 0 <= k < schedule.len() ==> (#[trigger] schedule[k]).fate is Answered
}

/// The number of turns that `schedule` gives to `who`.
pub open spec fn turns_of(schedule: Seq<Turn>, who: int) -> nat
    decreases schedule.len(),
{
    if schedule.len() == 0 {
        0
    } else {
        turns_of(schedule.drop_last(), who) + if schedule.last().who == who {
            1nat
        } else {
            0nat
        }
    }
}

/// The world in which one registration of `name` has been submitted for
/// each moment of `moments`, and none of them has reached the table yet.
pub open spec fn submitted_together(
    rows: Seq<Account>,
    name: Seq<char>,
    moments: Seq<Seq<char>>,
) -> World {
    World {
        rows,
        phases: Seq::new(
            moments.len(),
            |i: int|
                transition(Phase::Received, Signal::Submitted { checked: Ok(name), now: moments[i] }).0,
        ),
        tasks: Seq::new(
            moments.len(),
            |i: int|
                transition(Phase::Received, Signal::Submitted { checked: Ok(name), now: moments[i] }).1,
        ),
    }
}

/// Whether every registration of `world` is over.
pub open spec fn all_over(world: World) -> bool {
    forall|i: int| 0 <= i < world.phases.len() ==> #[trigger] world.phases[i] is Finished
}

/// Whether `phase` is that of a registration that created its account.
pub open spec fn won(phase: Phase) -> bool {
    phase matches Phase::Finished(Ending::Inserted { .. })
}

/// Whether `phase` is that of a registration that ended as a duplicate.
pub open spec fn lost(phase: Phase) -> bool {
    phase == Phase::Finished(Ending::RejectedDuplicate)
}

/// The number of registrations that created their account.
pub open spec fn winners(phases: Seq<Phase>) -> nat
    decreases phases.len(),
{
    if phases.len() == 0 {
        0
    } else {
        winners(phases.drop_last()) + if won(phases.last()) {
            1nat
        } else {
            0nat
        }
    }
}

/// The number of registrations that ended as duplicates.
pub open spec fn losers(phases: Seq<Phase>) -> nat
    decreases phases.len(),
{
    if phases.len() == 0 {
        0
    } else {
        losers(phases.drop_last()) + if lost(phases.last()) {
            1nat
        } else {
            0nat
        }
    }
}

/// The number of rows of `rows` that carry the username `name`.
pub open spec fn occurrences(rows: Seq<Account>, name: Seq<char>) -> nat
    decreases rows.len(),
{
    if rows.len() == 0 {
        0
    } else {
        occurrences(rows.drop_last(), name) + if rows.last().username == name {
            1nat
        } else {
            0nat
        }
    }
}

proof fn lemma_winners_update(phases: Seq<Phase>, who: int, phase: Phase)
    requires
        0 <= who < phases.len(),
    ensures
        winners(phases.update(who, phase)) + (if won(phases[who]) {
            1int
        } else {
            0int
        }) == winners(phases) + (if won(phase) {
            1int
        } else {
            0int
        }),
    decreases phases.len(),
{
    let after = phases.update(who, phase);
    if who == phases.len() - 1 {
        assert(after.drop_last() =~= phases.drop_last());
    } else {
        assert(after.drop_last() =~= phases.drop_last().update(who, phase));
        lemma_winners_update(phases.drop_last(), who, phase);
    }
}

proof fn lemma_none_yet(phases: Seq<Phase>)
    requires
        forall|i: int| 0 <= i < phases.len() ==> !((#[trigger] phases[i]) is Finished),
    ensures
        winners(phases) == 0,
    decreases phases.len(),
{
    if phases.len() > 0 {
        lemma_none_yet(phases.drop_last());
    }
}

proof fn lemma_all_counted(phases: Seq<Phase>)
    requires
        forall|i: int| 0 <= i < phases.len() ==> won(#[trigger] phases[i]) || lost(phases[i]),
    ensures
        winners(phases) + losers(phases) == phases.len(),
    decreases phases.len(),
{
    if phases.len() > 0 {
        lemma_all_counted(phases.drop_last());
    }
}

proof fn lemma_winner_exists(phases: Seq<Phase>)
    requires
        winners(phases) >= 1,
    ensures
        exists|w: int| 0 <= w < phases.len() && won(#[trigger] phases[w]),
    decreases phases.len(),
{
    if phases.len() > 0 && !won(phases.last()) {
        lemma_winner_exists(phases.drop_last());
    }
}

/// In an ascending table a name is carried by no row or by one.
pub proof fn lemma_occurrences(rows: Seq<Account>, name: Seq<char>)
    requires
        ascending(rows),
    ensures
        occurrences(rows, name) == if holds(rows, name) {
            1nat
        } else {
            0nat
        },
    decreases rows.len(),
{
    if rows.len() > 0 {
        let front = rows.drop_last();
        lemma_occurrences(front, name);
        if holds(front, name) {
            lemma_precedes_irreflexive(name);
        } else if holds(rows, name) {
            let i = choose|i: int| 0 <= i < rows.len() && (#[trigger] rows[i]).username == name;
            if i < front.len() {
                assert(front[i].username == name);
            }
        }
    }
}

/// What one registration of `name` can have come to: it waits for its
/// search or for its insert, or it is over in one of three ways. Where it
/// created the account, the table is the one it began on with that account
/// added; where it ended as a duplicate, the table holds the name.
spec fn in_step(
    before: Seq<Account>,
    name: Seq<char>,
    account: Account,
    rows: Seq<Account>,
    phase: Phase,
    task: Task,
) -> bool {
    ||| phase == Phase::Validated(account) && task == Task::Find(name)
    ||| phase == Phase::Checked(account) && task == Task::Insert(account)
    ||| phase == Phase::Finished(Ending::Inserted { location: location_of(name) }) && task
        == Task::Stop && rows == with_account(before, account)
    ||| lost(phase) && task == Task::Stop && holds(rows, name)
    ||| phase == Phase::Finished(Ending::Failed) && task == Task::Stop
}

/// What holds of every world that registrations of `name`, submitted
/// together on the table `before`, can reach. Where nothing has failed so
/// far, `sound` says so, and more is known.
spec fn reachable(
    before: Seq<Account>,
    name: Seq<char>,
    moments: Seq<Seq<char>>,
    world: World,
    sound: bool,
) -> bool {
    &&& world.phases.len() == moments.len()
    &&& world.tasks.len() == moments.len()
    &&& ascending(world.rows)
    &&& holds(before, name) ==> world.rows == before
    &&& holds(world.rows, name) || world.rows == before
    &&& winners(world.phases) <= if holds(world.rows, name) && !holds(before, name) {
        1nat
    } else {
        0nat
    }
    &&& sound ==> winners(world.phases) == if holds(world.rows, name) && !holds(before, name) {
        1nat
    } else {
        0nat
    }
    &&& forall|i: int|
        0 <= i < moments.len() ==> in_step(
            before,
            name,
            Account::fresh(name, ROLE_USER, moments[i]),
            world.rows,
            #[trigger] world.phases[i],
            world.tasks[i],
        )
    &&& sound ==> forall|i: int|
        0 <= i < moments.len() ==> (#[trigger] world.phases[i]) != Phase::Finished(Ending::Failed)
}

proof fn lemma_turn_keeps_reachable(
    before: Seq<Account>,
    name: Seq<char>,
    moments: Seq<Seq<char>>,
    world: World,
    turn: Turn,
    sound: bool,
)
    requires
        ascending(before),
        reachable(before, name, moments, world, sound),
    ensures
        reachable(before, name, moments, take_turn(world, turn), sound && turn.fate is Answered),
{
    let after = take_turn(world, turn);
    let who = turn.who;
    if 0 <= who < moments.len() && !(world.tasks[who] is Stop) {
        let account = Account::fresh(name, ROLE_USER, moments[who]);
        let phase = world.phases[who];
        lemma_winners_update(world.phases, who, after.phases[who]);
        lemma_lookup_holds(world.rows, name);
        if phase == Phase::Checked(account) && !holds(world.rows, name) {
            lemma_with_account(world.rows, account);
        }
        assert forall|i: int| 0 <= i < moments.len() implies in_step(
            before,
            name,
            Account::fresh(name, ROLE_USER, moments[i]),
            after.rows,
            #[trigger] after.phases[i],
            after.tasks[i],
        ) by {
            assert(in_step(
                before,
                name,
                Account::fresh(name, ROLE_USER, moments[i]),
                world.rows,
                world.phases[i],
                world.tasks[i],
            ));
            if i != who {
                if won(world.phases[i]) {
                    assert(winners(world.phases) >= 1) by {
                        lemma_winners_update(world.phases, i, Phase::Received);
                    }
                }
            }
        }
    }
}

proof fn lemma_run_keeps_reachable(
    before: Seq<Account>,
    name: Seq<char>,
    moments: Seq<Seq<char>>,
    schedule: Seq<Turn>,
)
    requires
        ascending(before),
    ensures
        reachable(
            before,
            name,
            moments,
            run(submitted_together(before, name, moments), schedule),
            faultless(schedule),
        ),
    decreases schedule.len(),
{
    let start = submitted_together(before, name, moments);
    if schedule.len() == 0 {
        lemma_none_yet(start.phases);
    } else {
        let earlier = schedule.drop_last();
        lemma_run_keeps_reachable(before, name, moments, earlier);
        lemma_turn_keeps_reachable(
            before,
            name,
            moments,
            run(start, earlier),
            schedule.last(),
            faultless(earlier),
        );
    }
}

proof fn lemma_progress(
    before: Seq<Account>,
    name: Seq<char>,
    moments: Seq<Seq<char>>,
    schedule: Seq<Turn>,
    who: int,
)
    requires
        ascending(before),
        0 <= who < moments.len(),
    ensures
        ({
            let now = run(submitted_together(before, name, moments), schedule);
            &&& turns_of(schedule, who) >= 1 ==> !(now.phases[who] is Validated)
            &&& turns_of(schedule, who) >= 2 ==> now.phases[who] is Finished
        }),
    decreases schedule.len(),
{
    let start = submitted_together(before, name, moments);
    lemma_run_keeps_reachable(before, name, moments, schedule);
    if schedule.len() > 0 {
        let earlier = schedule.drop_last();
        lemma_progress(before, name, moments, earlier, who);
        lemma_run_keeps_reachable(before, name, moments, earlier);
        let world = run(start, earlier);
        let after = take_turn(world, schedule.last());
        assert(in_step(
            before,
            name,
            Account::fresh(name, ROLE_USER, moments[who]),
            world.rows,
            world.phases[who],
            world.tasks[who],
        ));
        assert(in_step(
            before,
            name,
            Account::fresh(name, ROLE_USER, moments[who]),
            after.rows,
            after.phases[who],
            after.tasks[who],
        ));
    }
}

/// Whatever the order of turns and whatever fails on the way, at most one
/// registration of a name creates the account, the table never holds the
/// name twice, and it is either the table as it was or that table with the
/// account of one of the registrations added. Where the table held the name
/// before, it does not change at all and nobody creates anything.
pub proof fn lemma_at_most_one_winner(
    before: Seq<Account>,
    name: Seq<char>,
    moments: Seq<Seq<char>>,
    schedule: Seq<Turn>,
)
    requires
        ascending(before),
    ensures
        ({
            let end = run(submitted_together(before, name, moments), schedule);
            &&& winners(end.phases) <= 1
            &&& occurrences(end.rows, name) <= 1
            &&& holds(before, name) ==> winners(end.phases) == 0 && end.rows == before
            &&& winners(end.phases) == 1 ==> occurrences(end.rows, name) == 1
            &&& end.rows == before || exists|i: int|
                0 <= i < moments.len() && end.rows == with_account(
                    before,
                    Account::fresh(name, ROLE_USER, #[trigger] moments[i]),
                )
        }),
{
    let start = submitted_together(before, name, moments);
    lemma_at_most_one_winner_by_steps(before, name, moments, schedule);
    lemma_run_keeps_reachable(before, name, moments, schedule);
    lemma_occurrences(run(start, schedule).rows, name);
}

proof fn lemma_at_most_one_winner_by_steps(
    before: Seq<Account>,
    name: Seq<char>,
    moments: Seq<Seq<char>>,
    schedule: Seq<Turn>,
)
    requires
        ascending(before),
    ensures
        ({
            let end = run(submitted_together(before, name, moments), schedule);
            end.rows == before || exists|i: int|
                0 <= i < moments.len() && end.rows == with_account(
                    before,
                    Account::fresh(name, ROLE_USER, #[trigger] moments[i]),
                )
        }),
    decreases schedule.len(),
{
    let start = submitted_together(before, name, moments);
    if schedule.len() > 0 {
        let earlier = schedule.drop_last();
        lemma_at_most_one_winner_by_steps(before, name, moments, earlier);
        lemma_run_keeps_reachable(before, name, moments, earlier);
    }
}

/// Where nothing fails, then however the turns of registrations of one
/// name fall, once all of them are over exactly one has created the account
/// and every other has ended as a duplicate, and the table holds exactly one
/// account of that name: the winner's.
///
/// This is said of a name that the table did not hold before.
pub proof fn lemma_one_winner(
    before: Seq<Account>,
    name: Seq<char>,
    moments: Seq<Seq<char>>,
    schedule: Seq<Turn>,
)
    requires
        ascending(before),
        !holds(before, name),
        moments.len() >= 1,
        faultless(schedule),
        all_over(run(submitted_together(before, name, moments), schedule)),
    ensures
        ({
            let end = run(submitted_together(before, name, moments), schedule);
            &&& winners(end.phases) == 1
            &&& losers(end.phases) == moments.len() - 1
            &&& occurrences(end.rows, name) == 1
            &&& exists|i: int|
                0 <= i < moments.len() && won(#[trigger] end.phases[i]) && end.rows
                    == with_account(before, Account::fresh(name, ROLE_USER, moments[i]))
        }),
{
    let end = run(submitted_together(before, name, moments), schedule);
    lemma_run_keeps_reachable(before, name, moments, schedule);
    assert(in_step(
        before,
        name,
        Account::fresh(name, ROLE_USER, moments[0]),
        end.rows,
        end.phases[0],
        end.tasks[0],
    ));
    assert(holds(end.rows, name)) by {
        if won(end.phases[0]) {
            lemma_winners_update(end.phases, 0, Phase::Received);
        }
    }
    assert forall|i: int| 0 <= i < end.phases.len() implies won(#[trigger] end.phases[i]) || lost(
        end.phases[i],
    ) by {
        assert(in_step(
            before,
            name,
            Account::fresh(name, ROLE_USER, moments[i]),
            end.rows,
            end.phases[i],
            end.tasks[i],
        ));
    }
    lemma_all_counted(end.phases);
    lemma_occurrences(end.rows, name);
    lemma_winner_exists(end.phases);
    let w = choose|w: int| 0 <= w < end.phases.len() && won(#[trigger] end.phases[w]);
    assert(in_step(
        before,
        name,
        Account::fresh(name, ROLE_USER, moments[w]),
        end.rows,
        end.phases[w],
        end.tasks[w],
    ));
}

/// Where the table already holds the name and nothing fails, no
/// registration of it creates anything: all end as duplicates and the table
/// stays as it was.
pub proof fn lemma_no_winner_when_taken(
    before: Seq<Account>,
    name: Seq<char>,
    moments: Seq<Seq<char>>,
    schedule: Seq<Turn>,
)
    requires
        ascending(before),
        holds(before, name),
        faultless(schedule),
        all_over(run(submitted_together(before, name, moments), schedule)),
    ensures
        ({
            let end = run(submitted_together(before, name, moments), schedule);
            &&& winners(end.phases) == 0
            &&& losers(end.phases) == moments.len()
            &&& end.rows == before
        }),
{
    let end = run(submitted_together(before, name, moments), schedule);
    lemma_run_keeps_reachable(before, name, moments, schedule);
    assert forall|i: int| 0 <= i < end.phases.len() implies won(#[trigger] end.phases[i]) || lost(
        end.phases[i],
    ) by {
        assert(in_step(
            before,
            name,
            Account::fresh(name, ROLE_USER, moments[i]),
            end.rows,
            end.phases[i],
            end.tasks[i],
        ));
        if won(end.phases[i]) {
            lemma_winners_update(end.phases, i, Phase::Received);
        }
    }
    lemma_all_counted(end.phases);
}

/// Every run comes to an end: once each registration has had two turns,
/// in whatever order and whatever became of its requests, all of them are
/// over.
pub proof fn lemma_two_turns_each(
    before: Seq<Account>,
    name: Seq<char>,
    moments: Seq<Seq<char>>,
    schedule: Seq<Turn>,
)
    requires
        ascending(before),
        forall|i: int| 0 <= i < moments.len() ==> turns_of(schedule, i) >= 2,
    ensures
        all_over(run(submitted_together(before, name, moments), schedule)),
{
    let end = run(submitted_together(before, name, moments), schedule);
    assert forall|i: int| 0 <= i < end.phases.len() implies #[trigger] end.phases[i] is Finished by {
        lemma_run_keeps_reachable(before, name, moments, schedule);
        lemma_progress(before, name, moments, schedule, i);
    }
}

} // verus!
