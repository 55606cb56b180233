use itertools::Itertools;
use vstd::prelude::*;

verus! {

/// The code of the error with which a search for windows ends where its time is up
/// and none was found.
pub const SEARCH_TIMED_OUT: i32 = 2;

/// The known ones among `process_ids`, in order.
pub open spec fn known(process_ids: Seq<Option<i32>>) -> Seq<i32>
    decreases process_ids.len(),
{
    if process_ids.len() == 0 {
        Seq::empty()
    } else {
        let before = known(process_ids.drop_last());
        match process_ids.last() {
            Some(pid) => before.push(pid),
            None => before,
        }
    }
}

/// `items` without those that occur earlier in it.
pub open spec fn first_occurrences(items: Seq<i32>) -> Seq<i32>
    decreases items.len(),
{
    if items.len() == 0 {
        Seq::empty()
    } else {
        let before = first_occurrences(items.drop_last());
        if items.drop_last().contains(items.last()) {
            before
        } else {
            before.push(items.last())
        }
    }
}

/// The decimal digits of `n`.
pub open spec fn digits(n: nat) -> Seq<char>
    decreases n,
{
    let digit = ('0' as nat + n % 10) as char;
    if n < 10 {
        seq![digit]
    } else {
        digits(n / 10).push(digit)
    }
}

/// `n` in decimal, with a sign where it is negative.
pub open spec fn decimal(n: int) -> Seq<char> {
    if n < 0 {
        seq!['-'] + digits((-n) as nat)
    } else {
        digits(n as nat)
    }
}

/// For every one of `pids` the option that names it and its decimal digits.
pub open spec fn pid_arguments(pids: Seq<i32>) -> Seq<Seq<char>>
    decreases pids.len(),
{
    if pids.len() == 0 {
        Seq::empty()
    } else {
        pid_arguments(pids.drop_last()).push("/pid"@).push(decimal(pids.last() as int))
    }
}

/// The arguments with which `taskkill` ends the processes of windows: every known
/// process once, by force.
pub open spec fn kill_arguments(process_ids: Seq<Option<i32>>) -> Seq<Seq<char>> {
    pid_arguments(first_occurrences(known(process_ids))).push("/f"@)
}

/// Calls `itertools::Itertools::unique`. Trusted: the items come out in their order,
/// each at its first occurrence only.
#[verifier::external_body]
fn unique(items: Vec<i32>) -> (res: Vec<i32>)
    ensures
        res@ == first_occurrences(items@),
{
    items.into_iter().unique().collect()
}

/// One decimal digit.
fn digit_string(digit: u32) -> (res: String)
    requires
        digit < 10,
    ensures
        res@ == digits(digit as nat),
{
    proof {
        reveal_strlit("0");
        reveal_strlit("1");
        reveal_strlit("2");
        reveal_strlit("3");
        reveal_strlit("4");
        reveal_strlit("5");
        reveal_strlit("6");
        reveal_strlit("7");
        reveal_strlit("8");
        reveal_strlit("9");
    }
    let text = match digit {
        0 => "0",
        1 => "1",
        2 => "2",
        3 => "3",
        4 => "4",
        5 => "5",
        6 => "6",
        7 => "7",
        8 => "8",
        _ => "9",
    };
    assert(text@ =~= digits(digit as nat));
    text.to_owned()
}

/// The decimal digits of `n`.
fn digits_string(n: u32) -> (res: String)
    ensures
        res@ == digits(n as nat),
    decreases n,
{
    if n < 10 {
        return digit_string(n);
    }
    let mut res = digits_string(n / 10);
    let digit = digit_string(n % 10);
    res.append(digit.as_str());
    assert(digits((n % 10) as nat) =~= seq![('0' as nat + n as nat % 10) as char]);
    assert(res@ =~= digits(n as nat));
    res
}

/// `n` in decimal.
fn decimal_string(n: i32) -> (res: String)
    ensures
        res@ == decimal(n as int),
{
    if n < 0 {
        proof {
            reveal_strlit("-");
        }
        let mut res = "-".to_owned();
        let magnitude: u32 = (-(n as i64)) as u32;
        res.append(digits_string(magnitude).as_str());
        assert(res@ =~= decimal(n as int));
        res
    } else {
        digits_string(n as u32)
    }
}

/// What to call `taskkill` with to close the existing windows, given the outcome of
/// the search for them: the process of each window, where it is known, or the code
/// of the error. Nothing is to be called where there are no windows, as is also the
/// case where the search ran out of time. Any other error is passed on.
pub fn close_command(search: Result<Vec<Option<i32>>, i32>) -> (res: Result<
    Option<Vec<String>>,
    i32,
>)
    ensures
        match search {
            Err(code) => if code == SEARCH_TIMED_OUT {
                res matches Ok(command) && command is None
            } else {
                res == Err::<Option<Vec<String>>, i32>(code)
            },
            Ok(process_ids) => {
                &&& res is Ok
                &&& res->Ok_0 matches Some(args) ==> args@[args@.len() - 1]@ == "/f"@
                &&& res->Ok_0 is None <==> process_ids@.len() == 0
                &&& res->Ok_0 matches Some(args) ==> args@.map_values(|arg: String| arg@)
                    == kill_arguments(process_ids@)
            },
        },
        search matches Err(code) ==> (res is Ok <==> code == 2),
{
    match search {
        Err(code) => if code == SEARCH_TIMED_OUT {
            Ok(None)
        } else {
            Err(code)
        },
        Ok(process_ids) => if process_ids.len() == 0 {
            Ok(None)
        } else {
            Ok(Some(taskkill_args(&process_ids)))
        },
    }
}

/// The arguments with which `taskkill` ends the processes of windows, given the
/// process of each, where it is known.
pub fn taskkill_args(process_ids: &Vec<Option<i32>>) -> (args: Vec<String>)
    ensures
        args@.map_values(|arg: String| arg@) == kill_arguments(process_ids@),
        args@[args@.len() - 1]@ == "/f"@,
        exists|pids: Seq<i32>|
            {
                &&& #[trigger] pids.no_duplicates()
                &&& forall|pid: i32| pids.contains(pid) <==> process_ids@.contains(Some(pid))
                &&& args@.len() == 2 * pids.len() + 1
                &&& forall|p: int|
                    0 <= p < 2 * pids.len() ==> (#[trigger] args@[p])@ == if p % 2 == 0 {
                        "/pid"@
                    } else {
                        decimal(pids[p / 2] as int)
                    }
            },
{
    let mut pids: Vec<i32> = Vec::new();
    let mut i: usize = 0;
    while i < process_ids.len()
        invariant
            i <= process_ids@.len(),
            pids@ == known(process_ids@.take(i as int)),
        decreases process_ids.len() - i,
    {
        assert(process_ids@.take(i + 1).drop_last() =~= process_ids@.take(i as int));
        if let Some(pid) = process_ids[i] {
            pids.push(pid);
        }
        i += 1;
    }
    assert(process_ids@.take(i as int) =~= process_ids@);
    let pids = unique(pids);
    let ghost text = |arg: String| arg@;
    let mut args: Vec<String> = Vec::new();
    let mut j: usize = 0;
    assert(args@.map_values(text) =~= pid_arguments(pids@.take(0)));
    while j < pids.len()
        invariant
            j <= pids@.len(),
            text == (|arg: String| arg@),
            args@.map_values(text) == pid_arguments(pids@.take(j as int)),
        decreases pids.len() - j,
    {
        assert(pids@.take(j + 1).drop_last() =~= pids@.take(j as int));
        let ghost before = args@;
        args.push("/pid".to_owned());
        args.push(decimal_string(pids[j]));
        assert(args@.map_values(text) =~= before.map_values(text).push("/pid"@).push(
            decimal(pids@[j as int] as int),
        ));
        j += 1;
    }
    assert(pids@.take(j as int) =~= pids@);
    let ghost before = args@;
    args.push("/f".to_owned());
    assert(args@.map_values(text) =~= before.map_values(text).push("/f"@));
    proof {
        law_every_process_is_named_once(process_ids@);
        let words = args@.map_values(text);
        let named = first_occurrences(known(process_ids@));
        assert(words[words.len() - 1] == args@[args@.len() - 1]@);
        assert forall|p: int| 0 <= p < 2 * named.len() implies (#[trigger] args@[p])@ == if p % 2
            == 0 {
            "/pid"@
        } else {
            decimal(named[p / 2] as int)
        } by {
            assert(names_process(words, p / 2, named[p / 2]));
            assert(words[p] == args@[p]@);
        }
        assert(named.no_duplicates());
    }
    args
}

/// The `k`th pair of `args` names the process `pid`.
pub open spec fn names_process(args: Seq<Seq<char>>, k: int, pid: i32) -> bool {
    &&& args[2 * k] == "/pid"@
    &&& args[2 * k + 1] == decimal(pid as int)
}

/// The arguments name every known process once and none else, each by an option
/// and its number, and end with the option for force.
pub proof fn law_every_process_is_named_once(process_ids: Seq<Option<i32>>)
    ensures
        ({
            let pids = first_occurrences(known(process_ids));
            let args = kill_arguments(process_ids);
            &&& pids.no_duplicates()
            &&& forall|pid: i32| pids.contains(pid) <==> process_ids.contains(Some(pid))
            &&& args.len() == 2 * pids.len() + 1
            &&& forall|k: int|
                0 <= k < pids.len() ==> names_process(args, k, #[trigger] pids[k])
            &&& args.last() == "/f"@
        }),
{
    let pids = first_occurrences(known(process_ids));
    lemma_first_occurrences(known(process_ids));
    lemma_known(process_ids);
    assert forall|pid: i32| pids.contains(pid) <==> process_ids.contains(Some(pid)) by {
        assert(pids.contains(pid) <==> known(process_ids).contains(pid));
    }
    lemma_pid_arguments(pids);
    assert forall|k: int| 0 <= k < pids.len() implies names_process(
        kill_arguments(process_ids),
        k,
        #[trigger] pids[k],
    ) by {
        assert(names_process(pid_arguments(pids), k, pids[k]));
    }
}

/// The arguments name the processes in the order in which their windows were found: the
/// options stand at the even places and the numbers, in decimal, at the odd ones, and
/// wherever a window of a process that is named later was found, one of each process
/// named before it was found earlier.
pub proof fn law_processes_are_named_as_they_were_found(process_ids: Seq<Option<i32>>) -> (pids:
    Seq<i32>)
    ensures
        pids.no_duplicates(),
        forall|pid: i32| pids.contains(pid) <==> process_ids.contains(Some(pid)),
        forall|a: int, b: int, j: int|
            #![trigger pids[a], pids[b], process_ids[j]]
            0 <= a < b < pids.len() && 0 <= j < process_ids.len() && process_ids[j] == Some(pids[b])
                ==> process_ids.take(j).contains(Some(pids[a])),
        kill_arguments(process_ids).len() == 2 * pids.len() + 1,
        forall|p: int|
            0 <= p < 2 * pids.len() ==> #[trigger] kill_arguments(process_ids)[p] == if p % 2
                == 0 {
                "/pid"@
            } else {
                decimal(pids[p / 2] as int)
            },
        kill_arguments(process_ids)[2 * pids.len() as int] == "/f"@,
{
    let pids = first_occurrences(known(process_ids));
    law_every_process_is_named_once(process_ids);
    lemma_found_in_order(process_ids);
    let args = kill_arguments(process_ids);
    assert forall|p: int| 0 <= p < 2 * pids.len() implies #[trigger] args[p] == if p % 2 == 0 {
        "/pid"@
    } else {
        decimal(pids[p / 2] as int)
    } by {
        assert(names_process(args, p / 2, pids[p / 2]));
    }
    pids
}

proof fn lemma_found_in_order(process_ids: Seq<Option<i32>>)
    ensures
        ({
            let pids = first_occurrences(known(process_ids));
            forall|a: int, b: int, j: int|
                #![trigger pids[a], pids[b], process_ids[j]]
                0 <= a < b < pids.len() && 0 <= j < process_ids.len() && process_ids[j] == Some(
                    pids[b],
                ) ==> process_ids.take(j).contains(Some(pids[a]))
        }),
    decreases process_ids.len(),
{
    if process_ids.len() > 0 {
        let before = process_ids.drop_last();
        let pids = first_occurrences(known(process_ids));
        let pids_before = first_occurrences(known(before));
        lemma_found_in_order(before);
        lemma_known(before);
        lemma_first_occurrences(known(before));
        if let Some(last) = process_ids.last() {
            assert(known(process_ids).drop_last() =~= known(before));
        }
        assert forall|a: int, b: int, j: int|
            #![trigger pids[a], pids[b], process_ids[j]]
            0 <= a < b < pids.len() && 0 <= j < process_ids.len() && process_ids[j] == Some(
                pids[b],
            ) implies process_ids.take(j).contains(Some(pids[a])) by {
            assert(pids[a] == pids_before[a]);
            assert(pids_before.contains(pids[a]));
            assert(known(before).contains(pids[a]));
            assert(before.contains(Some(pids[a])));
            if j < before.len() {
                assert(before[j] == process_ids[j]);
                assert(before.contains(Some(pids[b])));
                assert(pids_before[b] == pids[b]);
                assert(before.take(j) =~= process_ids.take(j));
            } else {
                assert(process_ids.take(j) =~= before);
            }
        }
    }
}

/// How numbers are written: a digit stands for itself, a further digit is appended to
/// what is written for the number without it, and a negative number is written as the
/// positive one with a minus sign before it.
pub proof fn law_numbers_are_written_in_decimal(n: int, digit: int)
    requires
        0 < n,
        0 <= digit < 10,
    ensures
        decimal(digit) == seq![('0' as int + digit) as char],
        decimal(10 * n + digit) == decimal(n).push(('0' as int + digit) as char),
        decimal(-n) == seq!['-'] + decimal(n),
{
    let more = (10 * n + digit) as nat;
    assert(more / 10 == n && more % 10 == digit);
    reveal_with_fuel(digits, 2);
}

proof fn lemma_pid_arguments(pids: Seq<i32>)
    ensures
        pid_arguments(pids).len() == 2 * pids.len(),
        forall|k: int|
            0 <= k < pids.len() ==> names_process(pid_arguments(pids), k, #[trigger] pids[k]),
    decreases pids.len(),
{
    if pids.len() > 0 {
        lemma_pid_arguments(pids.drop_last());
        assert forall|k: int| 0 <= k < pids.len() implies names_process(
            pid_arguments(pids),
            k,
            #[trigger] pids[k],
        ) by {
            if k < pids.len() - 1 {
                assert(pids.drop_last()[k] == pids[k]);
            }
        }
    }
}

proof fn lemma_known(process_ids: Seq<Option<i32>>)
    ensures
        forall|pid: i32| known(process_ids).contains(pid) <==> process_ids.contains(Some(pid)),
    decreases process_ids.len(),
{
    if process_ids.len() > 0 {
        let before = process_ids.drop_last();
        lemma_known(before);
        assert(process_ids =~= before.push(process_ids.last()));
        assert forall|pid: i32|
            known(process_ids).contains(pid) <==> process_ids.contains(Some(pid)) by {
            vstd::seq_lib::lemma_seq_contains_after_push(before, process_ids.last(), Some(pid));
            if let Some(last) = process_ids.last() {
                vstd::seq_lib::lemma_seq_contains_after_push(known(before), last, pid);
            }
        }
    }
}

proof fn lemma_first_occurrences(items: Seq<i32>)
    ensures
        first_occurrences(items).no_duplicates(),
        forall|item: i32| first_occurrences(items).contains(item) <==> items.contains(item),
    decreases items.len(),
{
    if items.len() > 0 {
        let before = items.drop_last();
        lemma_first_occurrences(before);
        assert(items =~= before.push(items.last()));
        assert forall|item: i32|
            first_occurrences(items).contains(item) <==> items.contains(item) by {
            vstd::seq_lib::lemma_seq_contains_after_push(before, items.last(), item);
            vstd::seq_lib::lemma_seq_contains_after_push(
                first_occurrences(before),
                items.last(),
                item,
            );
        }
    }
}

} // verus!
