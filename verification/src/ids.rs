//! New names for conditions and jobs.
use vstd::prelude::*;

use crate::names::{is_plain_char, is_plain_id};
use crate::text::{decimal, lemma_first_separator, push_decimal};

verus! {

fn push_wide(out: &mut String, number: u128)
    ensures
        final(out)@ == old(out)@ + decimal(number as nat),
    decreases number,
{
    if number >= 10 {
        push_wide(out, number / 10);
    }
    let code: u8 = (number % 10) as u8 + 48;
    out.push(code as char);
    assert(out@ =~= old(out)@ + decimal(number as nat));
}

/// The ID of a condition or of a hook: the time, the process and a number that it counts up.
pub open spec fn condition_id(now_ms: u64, pid: u32, sequence: u64) -> Seq<char> {
    decimal(now_ms as nat) + "-"@ + decimal(pid as nat) + "-"@ + decimal(sequence as nat)
}

/// A new ID for a condition or a hook.
pub fn new_condition_id(now_ms: u64, pid: u32, sequence: u64) -> (id: String)
    ensures
        id@ == condition_id(now_ms, pid, sequence),
        is_plain_id(id@),
{
    let mut id = String::new();
    push_decimal(&mut id, now_ms);
    assert(id@ =~= decimal(now_ms as nat));
    id.append("-");
    push_decimal(&mut id, pid as u64);
    id.append("-");
    push_decimal(&mut id, sequence);
    proof {
        lemma_parts(now_ms as nat, pid as nat, sequence as nat);
    }
    id
}

/// The ID of a job: the process, the time in nanoseconds and a number that the process counts up.
pub open spec fn job_id(pid: u32, timestamp: u128, sequence: u64) -> Seq<char> {
    "job-"@ + decimal(pid as nat) + "-"@ + decimal(timestamp as nat) + "-"@ + decimal(
        sequence as nat,
    )
}

/// A new ID for a job. It can always name a directory below the job root.
pub fn new_job_id(pid: u32, timestamp: u128, sequence: u64) -> (id: String)
    ensures
        id@ == job_id(pid, timestamp, sequence),
        is_plain_id(id@),
{
    let mut id = "job-".to_owned();
    push_decimal(&mut id, pid as u64);
    id.append("-");
    push_wide(&mut id, timestamp);
    id.append("-");
    push_decimal(&mut id, sequence);
    proof {
        reveal_strlit("job-");
        let rest = parts(pid as nat, timestamp as nat, sequence as nat);
        lemma_parts(pid as nat, timestamp as nat, sequence as nat);
        assert(id@ =~= "job-"@ + rest);
        assert forall|i: int| 0 <= i < id@.len() implies is_plain_char(#[trigger] id@[i]) by {
            if i < 4 {
                assert(id@[i] == "job-"@[i]);
            } else {
                assert(id@[i] == rest[i - 4]);
            }
        }
    }
    id
}

/// Three numbers with a hyphen between each two.
spec fn parts(first: nat, second: nat, third: nat) -> Seq<char> {
    decimal(first) + "-"@ + decimal(second) + "-"@ + decimal(third)
}

proof fn lemma_decimal(number: nat)
    ensures
        decimal(number).len() > 0,
        forall|i: int|
            0 <= i < decimal(number).len() ==> '0' <= (#[trigger] decimal(number)[i]) <= '9',
    decreases number,
{
    if number >= 10 {
        lemma_decimal(number / 10);
        let front = decimal(number / 10);
        assert forall|i: int| 0 <= i < decimal(number).len() implies '0' <= (
        #[trigger] decimal(number)[i]) <= '9' by {
            if i < front.len() {
                assert(decimal(number)[i] == front[i]);
            }
        }
    }
}

proof fn lemma_decimal_injective(left: nat, right: nat)
    requires
        decimal(left) == decimal(right),
    ensures
        left == right,
    decreases left,
{
    assert(decimal(left).last() == decimal(right).last());
    assert(decimal(left).last() as int == left % 10 + 48);
    assert(decimal(right).last() as int == right % 10 + 48);
    if left >= 10 && right >= 10 {
        assert(decimal(left).drop_last() =~= decimal(left / 10));
        assert(decimal(right).drop_last() =~= decimal(right / 10));
        lemma_decimal_injective(left / 10, right / 10);
    } else {
        lemma_decimal(left / 10);
        lemma_decimal(right / 10);
    }
}

proof fn lemma_parts(first: nat, second: nat, third: nat)
    ensures
        is_plain_id(parts(first, second, third)),
{
    reveal_strlit("-");
    lemma_decimal(first);
    lemma_decimal(second);
    lemma_decimal(third);
    let all = parts(first, second, third);
    let a = decimal(first).len() as int;
    let b = a + 1 + decimal(second).len();
    assert forall|i: int| 0 <= i < all.len() implies is_plain_char(#[trigger] all[i]) by {
        if i < a {
            assert(all[i] == decimal(first)[i]);
        } else if i == a || i == b {
            assert(all[i] == '-');
        } else if i < b {
            assert(all[i] == decimal(second)[i - a - 1]);
        } else {
            assert(all[i] == decimal(third)[i - b - 1]);
        }
    }
}

proof fn lemma_parts_injective(
    first: nat,
    second: nat,
    third: nat,
    other_first: nat,
    other_second: nat,
    other_third: nat,
)
    requires
        parts(first, second, third) == parts(other_first, other_second, other_third),
    ensures
        first == other_first,
        second == other_second,
        third == other_third,
{
    reveal_strlit("-");
    lemma_decimal(first);
    lemma_decimal(second);
    lemma_decimal(other_first);
    lemma_decimal(other_second);
    assert("-"@ =~= seq!['-']);
    let rest = decimal(second) + seq!['-'] + decimal(third);
    let other_rest = decimal(other_second) + seq!['-'] + decimal(other_third);
    assert(parts(first, second, third) =~= decimal(first) + seq!['-'] + rest);
    assert(parts(other_first, other_second, other_third) =~= decimal(other_first) + seq!['-']
        + other_rest);
    lemma_first_separator(decimal(first), rest, decimal(other_first), other_rest, '-');
    lemma_first_separator(
        decimal(second),
        decimal(third),
        decimal(other_second),
        decimal(other_third),
        '-',
    );
    lemma_decimal_injective(first, other_first);
    lemma_decimal_injective(second, other_second);
    lemma_decimal_injective(third, other_third);
}

/// Two conditions or hooks share an ID only if they were named at the same time, by the same
/// process, with the same number: a process that counts its numbers up never names two alike.
pub proof fn condition_ids_are_unique(
    now_ms: u64,
    pid: u32,
    sequence: u64,
    other_now_ms: u64,
    other_pid: u32,
    other_sequence: u64,
)
    requires
        condition_id(now_ms, pid, sequence) == condition_id(
            other_now_ms,
            other_pid,
            other_sequence,
        ),
    ensures
        now_ms == other_now_ms,
        pid == other_pid,
        sequence == other_sequence,
{
    lemma_parts_injective(
        now_ms as nat,
        pid as nat,
        sequence as nat,
        other_now_ms as nat,
        other_pid as nat,
        other_sequence as nat,
    );
}

/// Two jobs share an ID only if they were named by the same process, at the same time, with the
/// same number.
pub proof fn job_ids_are_unique(
    pid: u32,
    timestamp: u128,
    sequence: u64,
    other_pid: u32,
    other_timestamp: u128,
    other_sequence: u64,
)
    requires
        job_id(pid, timestamp, sequence) == job_id(other_pid, other_timestamp, other_sequence),
    ensures
        pid == other_pid,
        timestamp == other_timestamp,
        sequence == other_sequence,
{
    let rest = parts(pid as nat, timestamp as nat, sequence as nat);
    let other_rest = parts(other_pid as nat, other_timestamp as nat, other_sequence as nat);
    let whole = job_id(pid, timestamp, sequence);
    assert(rest =~= whole.skip("job-"@.len() as int));
    assert(other_rest =~= whole.skip("job-"@.len() as int));
    lemma_parts_injective(
        pid as nat,
        timestamp as nat,
        sequence as nat,
        other_pid as nat,
        other_timestamp as nat,
        other_sequence as nat,
    );
}

} // verus!
