//! The table of answers: what has been answered to each command.

use crate::ids::CommandId;
use crate::store::{integrity, refused, StoreError};
use crate::text::str_equal;
use vstd::prelude::*;

verus! {

/// The answer to a command. The answer is JSON.
#[derive(Clone, Debug, PartialEq, Eq)]
pub struct ResultRow {
    pub command_id: CommandId,
    pub command_kind: String,
    pub request_digest: String,
    pub response: String,
    pub event_sequence: u64,
}

/// What is known of an answer.
#[verifier::ext_equal]
pub struct ResultInfo {
    pub command_id: CommandId,
    pub command_kind: Seq<char>,
    pub request_digest: Seq<char>,
    pub response: Seq<char>,
    pub event_sequence: u64,
}

impl View for ResultRow {
    type V = ResultInfo;

    open spec fn view(&self) -> ResultInfo {
        ResultInfo {
            command_id: self.command_id,
            command_kind: self.command_kind@,
            request_digest: self.request_digest@,
            response: self.response@,
            event_sequence: self.event_sequence,
        }
    }
}

/// What is known of the answers.
pub open spec fn result_infos(rows: Seq<ResultRow>) -> Seq<ResultInfo> {
    rows.map_values(|row: ResultRow| row@)
}

/// The answer to the command.
pub open spec fn answers(infos: Seq<ResultInfo>, i: int, command: CommandId) -> bool {
    0 <= i < infos.len() && infos[i].command_id == command
}

/// The command has been answered.
pub open spec fn has_result(infos: Seq<ResultInfo>, command: CommandId) -> bool {
    exists|i: int| answers(infos, i, command)
}

/// What was answered to the command.
pub open spec fn result_of(infos: Seq<ResultInfo>, command: CommandId) -> ResultInfo {
    infos[choose|i: int| answers(infos, i, command)]
}

/// No two answers are to the same command.
pub open spec fn results_sound(infos: Seq<ResultInfo>) -> bool {
    forall|i: int, j: int|
        0 <= i < j < infos.len() ==> (#[trigger] infos[i]).command_id != (
        #[trigger] infos[j]).command_id
}

/// The answer is to the same request.
pub open spec fn same_request(info: ResultInfo, kind: Seq<char>, digest: Seq<char>) -> bool {
    info.command_kind == kind && info.request_digest == digest
}

/// What a caller supplies of an answer.
#[derive(Clone, Debug, PartialEq, Eq)]
pub struct Reply {
    pub request_digest: String,
    pub response: String,
}

/// The row of an answer.
pub open spec fn replied(
    reply: Reply,
    command: CommandId,
    kind: Seq<char>,
    sequence: u64,
) -> ResultInfo {
    ResultInfo {
        command_id: command,
        command_kind: kind,
        request_digest: reply.request_digest@,
        response: reply.response@,
        event_sequence: sequence,
    }
}

proof fn lemma_answer_unique(infos: Seq<ResultInfo>, i: int, command: CommandId)
    requires
        results_sound(infos),
        answers(infos, i, command),
    ensures
        has_result(infos, command),
        result_of(infos, command) == infos[i],
{
    let k = choose|k: int| answers(infos, k, command);
    if k < i {
        assert(infos[k].command_id != infos[i].command_id);
    } else if i < k {
        assert(infos[i].command_id != infos[k].command_id);
    }
}

/// The table of answers.
#[derive(Clone, Debug, PartialEq, Eq)]
pub struct ResultTable {
    pub rows: Vec<ResultRow>,
}

impl ResultTable {
    /// The table holds together.
    pub open spec fn wf(self) -> bool {
        results_sound(result_infos(self.rows@))
    }

    /// An empty table.
    pub fn new() -> (r: ResultTable)
        ensures
            r.wf(),
            r.rows@.len() == 0,
    {
        ResultTable { rows: Vec::new() }
    }

    fn position(&self, command: CommandId) -> (r: Option<usize>)
        requires
            self.wf(),
        ensures
            match r {
                Some(i) => i < self.rows@.len() && answers(
                    result_infos(self.rows@),
                    i as int,
                    command,
                ) && has_result(result_infos(self.rows@), command) && self.rows@[i as int]@
                    == result_of(result_infos(self.rows@), command),
                None => !has_result(result_infos(self.rows@), command),
            },
    {
        let ghost infos = result_infos(self.rows@);
        let mut i: usize = 0;
        while i < self.rows.len()
            invariant
                i <= self.rows@.len(),
                self.wf(),
                infos == result_infos(self.rows@),
                forall|j: int| 0 <= j < i ==> !(#[trigger] answers(infos, j, command)),
            decreases self.rows@.len() - i,
        {
            assert(infos[i as int] == self.rows@[i as int]@);
            if self.rows[i].command_id.0 == command.0 {
                proof {
                    lemma_answer_unique(infos, i as int, command);
                }
                return Some(i);
            }
            i += 1;
        }
        None
    }

    /// Whether a command has been answered.
    pub fn has_command_result(&self, command_id: CommandId) -> (r: bool)
        requires
            self.wf(),
        ensures
            r == has_result(result_infos(self.rows@), command_id),
    {
        match self.position(command_id) {
            Some(_) => true,
            None => false,
        }
    }

    /// Records the answer to a command.
    pub fn record(&mut self, command_id: CommandId, kind: &str, reply: Reply, sequence: u64)
        requires
            old(self).wf(),
            !has_result(result_infos(old(self).rows@), command_id),
        ensures
            final(self).wf(),
            result_infos(final(self).rows@) == result_infos(old(self).rows@).push(
                replied(reply, command_id, kind@, sequence),
            ),
    {
        let ghost had = result_infos(self.rows@);
        let row = ResultRow {
            command_id,
            command_kind: kind.to_owned(),
            request_digest: reply.request_digest,
            response: reply.response,
            event_sequence: sequence,
        };
        let ghost info = row@;
        self.rows.push(row);
        proof {
            let now = result_infos(self.rows@);
            assert(now =~= had.push(info));
            assert forall|i: int, j: int| 0 <= i < j < now.len() implies (
            #[trigger] now[i]).command_id != (#[trigger] now[j]).command_id by {
                assert(now[i] == had[i]);
                if j < had.len() {
                    assert(now[j] == had[j]);
                } else {
                    assert(!answers(had, i, command_id));
                }
            }
        }
    }

    /// What was answered to a command.
    pub fn stored_command_response(&self, command_id: CommandId) -> (r: Option<String>)
        requires
            self.wf(),
        ensures
            match r {
                Some(response) => has_result(result_infos(self.rows@), command_id) && response@
                    == result_of(result_infos(self.rows@), command_id).response,
                None => !has_result(result_infos(self.rows@), command_id),
            },
    {
        match self.position(command_id) {
            Some(i) => Some(self.rows[i].response.as_str().to_owned()),
            None => None,
        }
    }

    /// What was answered to a command, if it was the same request.
    pub fn checked_command_response(
        &self,
        command_id: CommandId,
        command_kind: &str,
        request_digest: &str,
    ) -> (r: Result<Option<String>, StoreError>)
        requires
            self.wf(),
        ensures
            ({
                let infos = result_infos(self.rows@);
                let info = result_of(infos, command_id);
                match r {
                    Ok(None) => !has_result(infos, command_id),
                    Ok(Some(response)) => has_result(infos, command_id) && same_request(
                        info,
                        command_kind@,
                        request_digest@,
                    ) && response@ == info.response,
                    Err(error) => has_result(infos, command_id) && !same_request(
                        info,
                        command_kind@,
                        request_digest@,
                    ) && error == StoreError::CommandReplayMismatch,
                }
            }),
    {
        match self.position(command_id) {
            Some(i) => {
                let row = &self.rows[i];
                if str_equal(row.command_kind.as_str(), command_kind) && str_equal(
                    row.request_digest.as_str(),
                    request_digest,
                ) {
                    Ok(Some(row.response.as_str().to_owned()))
                } else {
                    Err(StoreError::CommandReplayMismatch)
                }
            },
            None => Ok(None),
        }
    }

    /// Replaces what was answered to a request.
    pub fn replace_command_response(
        &mut self,
        command_id: CommandId,
        command_kind: &str,
        request_digest: &str,
        response: String,
    ) -> (r: Result<(), StoreError>)
        requires
            old(self).wf(),
        ensures
            final(self).wf(),
            ({
                let infos = result_infos(old(self).rows@);
                let matched = has_result(infos, command_id) && same_request(
                    result_of(infos, command_id),
                    command_kind@,
                    request_digest@,
                );
                &&& r is Ok <==> matched
                &&& r is Ok ==> result_infos(final(self).rows@) == infos.map_values(
                    |info: ResultInfo|
                        if info.command_id == command_id {
                            ResultInfo { response: response@, ..info }
                        } else {
                            info
                        },
                )
                &&& r is Err ==> final(self).rows@ == old(self).rows@
            }),
            r matches Err(error) ==> error.broken(
                "command response replacement did not match exactly one result"@,
            ),
    {
        let ghost infos = result_infos(self.rows@);
        let ghost text = response@;
        match self.position(command_id) {
            Some(i) => {
                if !str_equal(self.rows[i].command_kind.as_str(), command_kind) || !str_equal(
                    self.rows[i].request_digest.as_str(),
                    request_digest,
                ) {
                    return Err(
                        integrity("command response replacement did not match exactly one result"),
                    );
                }
                self.rows[i].response = response;
                proof {
                    let goal = infos.map_values(
                        |info: ResultInfo|
                            if info.command_id == command_id {
                                ResultInfo { response: text, ..info }
                            } else {
                                info
                            },
                    );
                    let now = result_infos(self.rows@);
                    assert forall|k: int| 0 <= k < now.len() implies #[trigger] now[k]
                        == goal[k] by {
                        if k == i {
                            assert(now[k] =~= goal[k]);
                        } else {
                            assert(self.rows@[k] == old(self).rows@[k]);
                            if k < i {
                                assert(infos[k].command_id != infos[i as int].command_id);
                            } else {
                                assert(infos[i as int].command_id != infos[k].command_id);
                            }
                        }
                    }
                    assert(now =~= goal);
                    assert forall|a: int, b: int| 0 <= a < b < now.len() implies (
                    #[trigger] now[a]).command_id != (#[trigger] now[b]).command_id by {
                        assert(infos[a].command_id != infos[b].command_id);
                    }
                }
                Ok(())
            },
            None => Err(integrity("command response replacement did not match exactly one result")),
        }
    }

    /// Checks that a command has not been answered yet.
    pub fn check_new(&self, command_id: CommandId) -> (r: Result<(), StoreError>)
        requires
            self.wf(),
        ensures
            r is Ok <==> !has_result(result_infos(self.rows@), command_id),
            r matches Err(error) ==> error is Sql,
    {
        if self.has_command_result(command_id) {
            Err(refused("UNIQUE constraint failed: command_results.command_id"))
        } else {
            Ok(())
        }
    }
}

/// A request that is sent again is answered as it was answered before.
pub proof fn law_requests_are_answered_once(
    infos: Seq<ResultInfo>,
    reply: Reply,
    command: CommandId,
    kind: Seq<char>,
    sequence: u64,
)
    requires
        results_sound(infos),
        !has_result(infos, command),
    ensures
        ({
            let after = infos.push(replied(reply, command, kind, sequence));
            &&& has_result(after, command)
            &&& same_request(result_of(after, command), kind, reply.request_digest@)
            &&& result_of(after, command).response == reply.response@
        }),
{
    let after = infos.push(replied(reply, command, kind, sequence));
    assert forall|i: int, j: int| 0 <= i < j < after.len() implies (#[trigger] after[i]).command_id
        != (#[trigger] after[j]).command_id by {
        assert(after[i] == infos[i]);
        if j == infos.len() {
            assert(!answers(infos, i, command));
        }
    }
    lemma_answer_unique(after, infos.len() as int, command);
}

} // verus!
