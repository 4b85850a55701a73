//! What holds of the engine across several commands, proved over the model
//! that `ConcurrentHashMap::call` is specified by.
use vstd::prelude::*;

use crate::command::{CommandModel, ReplyModel};
use crate::decimal::{int_text, lemma_i64_text_round_trip, parse_failure_text, parsed_i64};
use crate::engine::execute;

verus! {

/// Runs `cs` in order from the contents `m`: the contents afterwards and the
/// replies, one per command.
pub open spec fn run(m: Map<Seq<char>, Seq<char>>, cs: Seq<CommandModel>) -> (Map<
    Seq<char>,
    Seq<char>,
>, Seq<ReplyModel>)
    decreases cs.len(),
{
    if cs.len() == 0 {
        (m, Seq::empty())
    } else {
        let before = run(m, cs.drop_last());
        let step = execute(before.0, cs.last());
        (step.0, before.1.push(step.1))
    }
}

/// `n` increments of `k`.
pub open spec fn increments(k: Seq<char>, n: nat) -> Seq<CommandModel> {
    Seq::new(n, |i: int| CommandModel::Incr(k))
}

/// The replies `1, 2, ..., n`.
pub open spec fn counted(n: nat) -> Seq<ReplyModel> {
    Seq::new(n, |i: int| ReplyModel::Integer((i + 1) as i64))
}

/// A key that was never written reads as absent.
pub proof fn law_get_unwritten(m: Map<Seq<char>, Seq<char>>, k: Seq<char>)
    requires
        !m.contains_key(k),
    ensures
        execute(m, CommandModel::Get(k)) == (m, ReplyModel::Null),
{
}

/// A read right after a write of `v` gives `v`.
pub proof fn law_set_then_get(m: Map<Seq<char>, Seq<char>>, k: Seq<char>, v: Seq<char>)
    ensures
        execute(execute(m, CommandModel::SetValue(k, v)).0, CommandModel::Get(k)).1
            == ReplyModel::BulkString(v),
{
}

/// Writing the same pair twice leaves what writing it once leaves, and
/// gives the same reply.
pub proof fn law_set_idempotent(m: Map<Seq<char>, Seq<char>>, k: Seq<char>, v: Seq<char>)
    ensures
        execute(execute(m, CommandModel::SetValue(k, v)).0, CommandModel::SetValue(k, v))
            == execute(m, CommandModel::SetValue(k, v)),
{
    let once = execute(m, CommandModel::SetValue(k, v)).0;
    assert(once.insert(k, v) =~= once);
}

/// Incrementing an absent key gives 1, and the key then reads as `"1"`.
pub proof fn law_incr_absent(m: Map<Seq<char>, Seq<char>>, k: Seq<char>)
    requires
        !m.contains_key(k),
    ensures
        execute(m, CommandModel::Incr(k)).1 == ReplyModel::Integer(1),
        execute(execute(m, CommandModel::Incr(k)).0, CommandModel::Get(k)).1
            == ReplyModel::BulkString("1"@),
{
    reveal_strlit("1");
    assert(int_text(1) =~= "1"@);
}

/// From an absent key, `n` increments in a row give `1, 2, ..., n`, and the
/// key then holds the text of `n`.
pub proof fn law_repeated_incr(m: Map<Seq<char>, Seq<char>>, k: Seq<char>, n: nat)
    requires
        !m.contains_key(k),
        n <= i64::MAX,
    ensures
        run(m, increments(k, n)).1 == counted(n),
        n > 0 ==> run(m, increments(k, n)).0 == m.insert(k, int_text(n as int)),
        n > 0 ==> execute(run(m, increments(k, n)).0, CommandModel::Get(k)).1
            == ReplyModel::BulkString(int_text(n as int)),
    decreases n,
{
    if n > 0 {
        let p = (n - 1) as nat;
        law_repeated_incr(m, k, p);
        assert(increments(k, n).drop_last() =~= increments(k, p));
        assert(increments(k, n).last() == CommandModel::Incr(k));
        if p > 0 {
            lemma_i64_text_round_trip(p as i64);
            assert(m.insert(k, int_text(p as int)).insert(k, int_text(n as int)) =~= m.insert(
                k,
                int_text(n as int),
            ));
        }
        assert(run(m, increments(k, n)).1 =~= counted(n));
    } else {
        assert(run(m, increments(k, n)).1 =~= counted(n));
    }
}

/// Incrementing a value that is no `i64` fails with the reason the text did
/// not parse, and the value stays as it was.
pub proof fn law_incr_non_integer(m: Map<Seq<char>, Seq<char>>, k: Seq<char>, v: Seq<char>)
    requires
        parsed_i64(v) is None,
    ensures
        ({
            let written = execute(m, CommandModel::SetValue(k, v)).0;
            &&& execute(written, CommandModel::Incr(k)) == (written, ReplyModel::Error(
                parse_failure_text(v),
            ))
            &&& execute(execute(written, CommandModel::Incr(k)).0, CommandModel::Get(k)).1
                == ReplyModel::BulkString(v)
        }),
{
}

/// The handshake always acknowledges and changes nothing: every key reads
/// the same before and after it.
pub proof fn law_client(m: Map<Seq<char>, Seq<char>>, k: Seq<char>)
    ensures
        execute(m, CommandModel::Client) == (m, ReplyModel::Ack),
        execute(execute(m, CommandModel::Client).0, CommandModel::Get(k)).1 == execute(
            m,
            CommandModel::Get(k),
        ).1,
{
}

} // verus!
