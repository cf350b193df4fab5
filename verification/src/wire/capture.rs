//! The documents of what a capture came to.
use crate::document::{
    bytes_value, member, missing_text, wrong_kind_text, Decode, Encode, Member, Value,
};
use crate::text::same;
use crate::types::capture_job::CaptureTerminalReport;
use vstd::prelude::*;

verus! {

/// What a [`CaptureTerminalReport`] stands for.
#[verifier::ext_equal]
pub ghost enum ReportView {
    Done(Seq<u8>),
    Failed { error: Seq<char>, error_stage: Seq<char>, retryable: bool },
}

impl View for CaptureTerminalReport {
    type V = ReportView;

    open spec fn view(&self) -> ReportView {
        match self {
            CaptureTerminalReport::Done { result_bincode } => ReportView::Done(result_bincode@),
            CaptureTerminalReport::Failed { error, error_stage, retryable } => ReportView::Failed {
                error: error@,
                error_stage: error_stage@,
                retryable: *retryable,
            },
        }
    }
}

/// The truth value under `key`, which must be there.
pub open spec fn need_flag(t: crate::document::Tree, key: Seq<char>) -> Result<bool, Seq<char>> {
    if t.member(key) is None {
        Err(crate::document::missing(key))
    } else {
        t.flag(key)
    }
}

/// Reads the truth value under `key`, which must be there.
fn read_need_flag(doc: &Value, key: &str) -> (res: Result<bool, String>)
    ensures
        res is Ok <==> need_flag(doc@, key@) is Ok,
        res is Ok ==> need_flag(doc@, key@)->Ok_0 == res->Ok_0,
        res is Err ==> need_flag(doc@, key@)->Err_0 == res->Err_0@,
{
    match doc.get(key) {
        None => Err(missing_text(key)),
        Some(_) => doc.flag(key),
    }
}

/// A success, as a document says it.
pub open spec fn decoded_done(t: crate::document::Tree) -> Result<ReportView, Seq<char>> {
    let t = t.in_order(seq!["result_bincode"@], 1);
    match crate::document::earlier(
        crate::document::error_of(t.table("Done"@)),
        crate::document::error_of(t.need_bytes("result_bincode"@)),
    ) {
        Some(e) => Err(e),
        None => Ok(ReportView::Done(t.need_bytes("result_bincode"@)->Ok_0)),
    }
}

/// Reads a success.
fn decode_done(doc: &Value) -> (res: Result<CaptureTerminalReport, String>)
    ensures
        res is Ok <==> decoded_done(doc@) is Ok,
        res is Ok ==> decoded_done(doc@)->Ok_0 == res->Ok_0@,
        res is Err ==> decoded_done(doc@)->Err_0 == res->Err_0@,
{
    let order: [&str; 1] = ["result_bincode"];
    let names = order.as_slice();
    assert(names.deep_view() =~= seq!["result_bincode"@]);
    let table = doc.in_order(names, 1);
    let doc = &table;
    if let Err(e) = doc.check_kind("Done") {
        return Err(e);
    }
    match doc.need_bytes("result_bincode") {
        Ok(result_bincode) => Ok(CaptureTerminalReport::Done { result_bincode }),
        Err(e) => Err(e),
    }
}

/// A failure, as a document says it.
pub open spec fn decoded_failed(t: crate::document::Tree) -> Result<ReportView, Seq<char>> {
    let t = t.in_order(seq!["error"@, "error_stage"@, "retryable"@], 3);
    let error = t.need_text("error"@);
    let error_stage = t.need_text("error_stage"@);
    let retryable = need_flag(t, "retryable"@);
    match crate::document::earlier(
        crate::document::earlier(
            crate::document::earlier(
                crate::document::error_of(t.table("Failed"@)),
                crate::document::error_of(error),
            ),
            crate::document::error_of(error_stage),
        ),
        crate::document::error_of(retryable),
    ) {
        Some(e) => Err(e),
        None => Ok(
            ReportView::Failed {
                error: error->Ok_0,
                error_stage: error_stage->Ok_0,
                retryable: retryable->Ok_0,
            },
        ),
    }
}

/// Reads a failure.
fn decode_failed(doc: &Value) -> (res: Result<CaptureTerminalReport, String>)
    ensures
        res is Ok <==> decoded_failed(doc@) is Ok,
        res is Ok ==> decoded_failed(doc@)->Ok_0 == res->Ok_0@,
        res is Err ==> decoded_failed(doc@)->Err_0 == res->Err_0@,
{
    let order: [&str; 3] = ["error", "error_stage", "retryable"];
    let names = order.as_slice();
    assert(names.deep_view() =~= seq!["error"@, "error_stage"@, "retryable"@]);
    let table = doc.in_order(names, 3);
    let doc = &table;
    if let Err(e) = doc.check_kind("Failed") {
        return Err(e);
    }
    let error = match doc.need_text("error") {
        Ok(v) => v,
        Err(e) => return Err(e),
    };
    let error_stage = match doc.need_text("error_stage") {
        Ok(v) => v,
        Err(e) => return Err(e),
    };
    let retryable = match read_need_flag(doc, "retryable") {
        Ok(v) => v,
        Err(e) => return Err(e),
    };
    Ok(CaptureTerminalReport::Failed { error, error_stage, retryable })
}

impl Decode for CaptureTerminalReport {
    open spec fn decoded(t: crate::document::Tree) -> Result<ReportView, Seq<char>> {
        let problem = crate::document::wrong_kind("report"@, "`Done` or `Failed`, and one thing"@);
        match t {
            crate::document::Tree::Table(members) => if members.len() != 1 {
                Err(problem)
            } else if members[0].key == "Done"@ {
                decoded_done(members[0].value)
            } else if members[0].key == "Failed"@ {
                decoded_failed(members[0].value)
            } else {
                Err(problem)
            },
            _ => Err(problem),
        }
    }

    fn decode(doc: &Value) -> (res: Result<CaptureTerminalReport, String>) {
        match doc {
            Value::Table(members) => {
                if members.len() == 1 {
                    let ghost trees = crate::document::table_view(members@);
                    assert(trees[0].key == members@[0].key@);
                    assert(trees[0].value == members@[0].value@);
                    if same(members[0].key.as_str(), "Done") {
                        return decode_done(&members[0].value);
                    }
                    if same(members[0].key.as_str(), "Failed") {
                        return decode_failed(&members[0].value);
                    }
                }
                Err(wrong_kind_text("report", "`Done` or `Failed`, and one thing"))
            },
            _ => Err(wrong_kind_text("report", "`Done` or `Failed`, and one thing")),
        }
    }
}

/// The content of a report, as a document.
pub open spec fn report_content(v: ReportView) -> crate::document::Tree {
    crate::document::Tree::Table(
        match v {
            ReportView::Done(bytes) => seq![
                crate::document::named("result_bincode"@, crate::document::bytes_tree(bytes)),
            ],
            ReportView::Failed { error, error_stage, retryable } => seq![
                crate::document::named("error"@, crate::document::Tree::Text(error)),
                crate::document::named("error_stage"@, crate::document::Tree::Text(error_stage)),
                crate::document::named("retryable"@, crate::document::Tree::Bool(retryable)),
            ],
        },
    )
}

impl Encode for CaptureTerminalReport {
    open spec fn tree(v: ReportView) -> crate::document::Tree {
        crate::document::Tree::Table(
            seq![
                crate::document::named(
                    if v is Done {
                        "Done"@
                    } else {
                        "Failed"@
                    },
                    report_content(v),
                ),
            ],
        )
    }

    open spec fn depth() -> nat {
        4
    }

    fn encode(&self) -> (res: Value) {
        let mut content: Vec<Member> = Vec::new();
        let name = match self {
            CaptureTerminalReport::Done { result_bincode } => {
                content.push(member("result_bincode", bytes_value(result_bincode)));
                "Done"
            },
            CaptureTerminalReport::Failed { error, error_stage, retryable } => {
                content.push(member("error", Value::Text(error.clone())));
                content.push(member("error_stage", Value::Text(error_stage.clone())));
                content.push(member("retryable", Value::Bool(*retryable)));
                "Failed"
            },
        };
        assert(crate::document::table_view(content@) =~= report_content(self@)->Table_0);
        let mut members: Vec<Member> = Vec::new();
        members.push(member(name, Value::Table(content)));
        assert(crate::document::table_view(members@) =~= CaptureTerminalReport::tree(
            self@,
        )->Table_0);
        Value::Table(members)
    }

    proof fn is_read_back(v: ReportView) {
        reveal_strlit("result_bincode");
        reveal_strlit("error");
        reveal_strlit("error_stage");
        reveal_strlit("retryable");
        reveal_strlit("Done");
        reveal_strlit("Failed");
        assert("result_bincode"@.len() == 14);
        assert("error"@.len() == 5);
        assert("error_stage"@.len() == 11);
        assert("retryable"@.len() == 9);
        assert("Done"@.len() == 4);
        assert("Failed"@.len() == 6);
        let content = report_content(v);
        let inner = content->Table_0;
        assert(crate::document::distinct_names(inner));
        crate::document::distinct_member_is_found(inner, 0);
        match v {
            ReportView::Done(bytes) => {
                crate::document::bytes_are_read_back(content, "result_bincode"@, bytes);
            },
            ReportView::Failed { .. } => {
                crate::document::distinct_member_is_found(inner, 1);
                crate::document::distinct_member_is_found(inner, 2);
            },
        }
        assert forall|i: int| 0 <= i < inner.len() implies crate::document::plain(
            (#[trigger] inner[i]).value,
            2,
        ) by {
        }
        let members = CaptureTerminalReport::tree(v)->Table_0;
        assert(crate::document::distinct_names(members));
        assert(crate::document::plain(content, 3));
        assert forall|i: int| 0 <= i < members.len() implies crate::document::plain(
            (#[trigger] members[i]).value,
            3,
        ) by {
        }
    }
}

/// A report has one name, that of how the job ended, and under it what goes with that end.
pub proof fn reports_are_read_by_their_end(t: crate::document::Tree)
    ensures
        CaptureTerminalReport::decoded(t) is Ok ==> t is Table && t->Table_0.len() == 1,
        CaptureTerminalReport::decoded(t) is Ok && t->Table_0[0].value is Table ==> ({
            let below = t->Table_0[0].value;
            match CaptureTerminalReport::decoded(t)->Ok_0 {
                ReportView::Done(bytes) => t->Table_0[0].key == "Done"@
                    && crate::document::says_bytes(below, "result_bincode"@, bytes),
                ReportView::Failed { error, error_stage, retryable } => t->Table_0[0].key
                    == "Failed"@ && below.member("error"@) == Some(
                    crate::document::Tree::Text(error),
                ) && below.member("error_stage"@) == Some(
                    crate::document::Tree::Text(error_stage),
                ) && below.member("retryable"@) == Some(crate::document::Tree::Bool(retryable)),
            }
        }),
{
    reveal_strlit("Done");
    reveal_strlit("Failed");
    assert("Done"@.len() == 4 && "Failed"@.len() == 6);
    if CaptureTerminalReport::decoded(t) is Ok && t->Table_0[0].value is Table {
        if let ReportView::Done(bytes) = CaptureTerminalReport::decoded(t)->Ok_0 {
            crate::document::bytes_are_read_in_place(
                t->Table_0[0].value,
                "result_bincode"@,
                bytes,
            );
        }
    }
}

} // verus!
