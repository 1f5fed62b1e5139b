//! Updating one task by id: find the task, replace whichever of name,
//! description and status were supplied, and reject an unrecognized status
//! tag. The whole update is atomic: on any error the sequence is unchanged.

use vstd::prelude::*;

use crate::store::status_tag;
use crate::task::{clone_chars, tasks_view, Error, Task, TaskStatus, TaskView};

verus! {

/// ASCII upper-case letters of the status tags mapped to lower case; every
/// other character is left as it is. Folding a candidate tag through this
/// matches the tags case-insensitively.
pub open spec fn tag_char_lowered(c: char) -> char {
    if c == 'T' {
        't'
    } else if c == 'O' {
        'o'
    } else if c == 'D' {
        'd'
    } else if c == 'I' {
        'i'
    } else if c == 'N' {
        'n'
    } else if c == 'P' {
        'p'
    } else if c == 'R' {
        'r'
    } else if c == 'G' {
        'g'
    } else if c == 'E' {
        'e'
    } else if c == 'S' {
        's'
    } else {
        c
    }
}

/// The status a supplied tag names, matched case-insensitively against the
/// three recognized tags; `None` for anything else.
pub open spec fn spec_status_input(s: Seq<char>) -> Option<TaskStatus> {
    let l = s.map_values(|c: char| tag_char_lowered(c));
    if l == status_tag(TaskStatus::Todo) {
        Some(TaskStatus::Todo)
    } else if l == status_tag(TaskStatus::InProgress) {
        Some(TaskStatus::InProgress)
    } else if l == status_tag(TaskStatus::Done) {
        Some(TaskStatus::Done)
    } else {
        None
    }
}

/// The position of the first task carrying `id`, if any.
pub open spec fn spec_first_with_id(ts: Seq<TaskView>, id: u128) -> Option<int>
    decreases ts.len(),
{
    if ts.len() == 0 {
        None
    } else if ts[0].id == id {
        Some(0int)
    } else {
        match spec_first_with_id(ts.drop_first(), id) {
            None => None,
            Some(j) => Some(j + 1),
        }
    }
}

/// The first match is exactly the position whose predecessors all miss.
pub proof fn lemma_first_with_id_at(ts: Seq<TaskView>, id: u128, k: int)
    requires
        0 <= k < ts.len(),
        ts[k].id == id,
        forall|j: int| 0 <= j < k ==> ts[j].id != id,
    ensures
        spec_first_with_id(ts, id) == Some(k),
    decreases k,
{
    if k > 0 {
        lemma_first_with_id_at(ts.drop_first(), id, k - 1);
    }
}

/// With no task carrying `id`, there is no first match.
pub proof fn lemma_first_with_id_absent(ts: Seq<TaskView>, id: u128)
    requires
        forall|j: int| 0 <= j < ts.len() ==> ts[j].id != id,
    ensures
        spec_first_with_id(ts, id) is None,
    decreases ts.len(),
{
    if ts.len() > 0 {
        lemma_first_with_id_absent(ts.drop_first(), id);
    }
}

/// The sequence after replacing the supplied fields of the task at `i`.
pub open spec fn spec_apply_update(
    ts: Seq<TaskView>,
    i: int,
    name: Option<Seq<char>>,
    description: Option<Seq<char>>,
    status: Option<TaskStatus>,
) -> Seq<TaskView> {
    ts.update(
        i,
        TaskView {
            id: ts[i].id,
            name: match name {
                Some(n) => n,
                None => ts[i].name,
            },
            description: match description {
                Some(d) => d,
                None => ts[i].description,
            },
            status: match status {
                Some(st) => st,
                None => ts[i].status,
            },
        },
    )
}

/// Lower-case the status-tag letters of one character.
fn tag_char_lowered_exec(c: char) -> (r: char)
    ensures
        r == tag_char_lowered(c),
{
    match c {
        'T' => 't',
        'O' => 'o',
        'D' => 'd',
        'I' => 'i',
        'N' => 'n',
        'P' => 'p',
        'R' => 'r',
        'G' => 'g',
        'E' => 'e',
        'S' => 's',
        _ => c,
    }
}

/// Recognize a supplied status tag, case-insensitively: exactly the three
/// fixed tags name a status; anything else is invalid input.
pub fn parse_status_input(s: &Vec<char>) -> (r: Result<TaskStatus, Error>)
    ensures
        r matches Ok(st) ==> spec_status_input(s@) == Some(st),
        r is Err ==> spec_status_input(s@) is None && r == Err::<TaskStatus, Error>(
            Error::InvalidInput,
        ),
{
    let mut l: Vec<char> = Vec::new();
    let mut k: usize = 0;
    while k < s.len()
        invariant
            k <= s@.len(),
            l@ =~= s@.map_values(|c: char| tag_char_lowered(c)).take(k as int),
        decreases s@.len() - k,
    {
        l.push(tag_char_lowered_exec(s[k]));
        proof {
            let m = s@.map_values(|c: char| tag_char_lowered(c));
            assert(m.take(k as int).push(m[k as int]) =~= m.take(k as int + 1));
        }
        k += 1;
    }
    proof {
        let m = s@.map_values(|c: char| tag_char_lowered(c));
        assert(m.take(m.len() as int) =~= m);
    }
    let ghost m = s@.map_values(|c: char| tag_char_lowered(c));
    if l.len() == 4 && l[0] == 't' && l[1] == 'o' && l[2] == 'd' && l[3] == 'o' {
        proof {
            assert(m =~= status_tag(TaskStatus::Todo));
        }
        return Ok(TaskStatus::Todo);
    }
    if l.len() == 10 && l[0] == 'i' && l[1] == 'n' && l[2] == 'p' && l[3] == 'r' && l[4] == 'o'
        && l[5] == 'g' && l[6] == 'r' && l[7] == 'e' && l[8] == 's' && l[9] == 's' {
        proof {
            assert(m =~= status_tag(TaskStatus::InProgress));
            assert(m != status_tag(TaskStatus::Todo)) by {
                assert(status_tag(TaskStatus::Todo).len() == 4);
            }
        }
        return Ok(TaskStatus::InProgress);
    }
    if l.len() == 4 && l[0] == 'd' && l[1] == 'o' && l[2] == 'n' && l[3] == 'e' {
        proof {
            assert(m =~= status_tag(TaskStatus::Done));
            assert(m != status_tag(TaskStatus::Todo)) by {
                assert(m[0] == 'd' && status_tag(TaskStatus::Todo)[0] == 't');
            }
            assert(m != status_tag(TaskStatus::InProgress)) by {
                assert(status_tag(TaskStatus::InProgress).len() == 10);
            }
        }
        return Ok(TaskStatus::Done);
    }
    proof {
        assert(spec_status_input(s@) is None) by {
            assert(forall|i: int| 0 <= i < m.len() ==> m[i] == l@[i]);
            if m == status_tag(TaskStatus::Todo) {
                assert(l@.len() == 4 && l@[0] == 't' && l@[1] == 'o' && l@[2] == 'd' && l@[3]
                    == 'o');
            }
            if m == status_tag(TaskStatus::InProgress) {
                assert(l@.len() == 10 && l@[0] == 'i' && l@[1] == 'n' && l@[2] == 'p' && l@[3]
                    == 'r' && l@[4] == 'o' && l@[5] == 'g' && l@[6] == 'r' && l@[7] == 'e' && l@[8]
                    == 's' && l@[9] == 's');
            }
            if m == status_tag(TaskStatus::Done) {
                assert(l@.len() == 4 && l@[0] == 'd' && l@[1] == 'o' && l@[2] == 'n' && l@[3]
                    == 'e');
            }
        }
    }
    Err(Error::InvalidInput)
}

/// Update the first task carrying `id`: replace whichever of name,
/// description and status were supplied. Fails with `NotFound` when no task
/// carries the id and with `InvalidInput` when the supplied status matches
/// no recognized tag; on any failure the sequence is unchanged.
pub fn apply_update(
    tasks: &mut Vec<Task>,
    id: u128,
    name: Option<Vec<char>>,
    description: Option<Vec<char>>,
    status: Option<Vec<char>>,
) -> (r: Result<(), Error>)
    ensures
        ({
            let ts = tasks_view(old(tasks)@);
            let st_in = match status {
                Some(sv) => Some(spec_status_input(sv@)),
                None => None,
            };
            match spec_first_with_id(ts, id) {
                None => r == Err::<(), Error>(Error::NotFound) && final(tasks)@ == old(tasks)@,
                Some(i) => {
                    if st_in == Some(Option::<TaskStatus>::None) {
                        r == Err::<(), Error>(Error::InvalidInput) && final(tasks)@ == old(
                            tasks,
                        )@
                    } else {
                        r is Ok && tasks_view(final(tasks)@) == spec_apply_update(
                            ts,
                            i,
                            match name {
                                Some(n) => Some(n@),
                                None => None,
                            },
                            match description {
                                Some(d) => Some(d@),
                                None => None,
                            },
                            match st_in {
                                Some(o) => o,
                                None => None,
                            },
                        )
                    }
                },
            }
        }),
        final(tasks)@.len() == old(tasks)@.len(),
{
    let ghost ts = tasks_view(old(tasks)@);
    let ghost gname: Option<Seq<char>> = match &name {
        Some(nv) => Some(nv@),
        None => None,
    };
    let ghost gdescription: Option<Seq<char>> = match &description {
        Some(dv) => Some(dv@),
        None => None,
    };
    let mut k: usize = 0;
    let n = tasks.len();
    let mut found: Option<usize> = None;
    while k < n
        invariant
            n == tasks@.len(),
            k <= n,
            tasks@ == old(tasks)@,
            found is None ==> forall|j: int|
                0 <= j < k ==> tasks_view(tasks@)[j].id != id,
            found matches Some(i) ==> i < n && tasks_view(tasks@)[i as int].id == id && forall|
                j: int,
            | 0 <= j < i ==> tasks_view(tasks@)[j].id != id,
        decreases n - k,
    {
        if matches!(found, None) && tasks[k].id == id {
            proof {
                assert(tasks_view(tasks@)[k as int].id == id);
            }
            found = Some(k);
        }
        k += 1;
    }
    let k = match found {
        None => {
            proof {
                lemma_first_with_id_absent(ts, id);
            }
            return Err(Error::NotFound);
        },
        Some(i) => i,
    };
    proof {
        lemma_first_with_id_at(ts, id, k as int);
    }
    let parsed_status: Option<TaskStatus> = match &status {
        Some(sv) => {
            match parse_status_input(sv) {
                Ok(st) => Some(st),
                Err(_invalid) => {
                    return Err(Error::InvalidInput);
                },
            }
        },
        None => None,
    };
    let new_name: Vec<char> = match name {
        Some(nv) => nv,
        None => clone_chars(&tasks[k].name),
    };
    let new_description: Vec<char> = match description {
        Some(dv) => dv,
        None => clone_chars(&tasks[k].description),
    };
    let new_status: TaskStatus = match parsed_status {
        Some(st) => st,
        None => tasks[k].status,
    };
    let new_task = Task { id, name: new_name, description: new_description, status: new_status };
    let slot = &mut tasks[k];
    *slot = new_task;
    proof {
        let newts = tasks_view(tasks@);
        let target = spec_apply_update(ts, k as int, gname, gdescription, parsed_status);
        assert(newts.len() == target.len());
        assert forall|j: int| 0 <= j < newts.len() implies newts[j] == target[j] by {
            assert(newts[j] == tasks@[j]@);
            if j == k {
                assert(tasks@[j]@ =~~= target[j]);
            } else {
                assert(tasks@[j] == old(tasks)@[j]);
                assert(target[j] == ts[j]);
            }
        }
        assert(newts =~= target);
    }
    Ok(())
}

} // verus!
