//! The "Known App Context" block of the chat preamble: the accounts, the
//! attachments and the CSV import the conversation has already seen, so
//! that the agent refers to them instead of fetching them again.
use vstd::prelude::*;

use crate::text::{decimal, decimal_string, owned, push_str, str_eq};
use crate::tools::common::strings_view;

verus! {

/// At most this many accounts are listed.
pub const MAX_WORKING_CONTEXT_ACCOUNTS: usize = 20;

/// At most this many attachments are kept.
pub const MAX_WORKING_CONTEXT_ATTACHMENTS: usize = 10;

pub struct WorkingContextAccount {
    pub id: String,
    pub name: String,
    pub currency: String,
}

/// An attachment of the session; its size is given as the label shown
/// (`"512 B"`, `"1.5 KB"`, ...).
pub struct WorkingContextAttachment {
    pub name: String,
    pub content_type: String,
    pub size_label: String,
}

pub struct WorkingContextImport {
    pub rows: Option<usize>,
    pub account_id: Option<String>,
    pub confidence: Option<String>,
    pub submitted: bool,
    pub imported_count: Option<usize>,
}

pub struct ChatWorkingContext {
    pub accounts: Vec<WorkingContextAccount>,
    pub attachments: Vec<WorkingContextAttachment>,
    pub current_import: Option<WorkingContextImport>,
}

pub open spec fn opt_text(o: Option<String>) -> Option<Seq<char>> {
    match o {
        Some(s) => Some(s@),
        None => None,
    }
}

pub open spec fn account_line(a: WorkingContextAccount) -> Seq<char> {
    "- "@ + a.name@ + ": id="@ + a.id@ + ", currency="@ + a.currency@
}

pub open spec fn attachment_line(a: WorkingContextAttachment) -> Seq<char> {
    "- "@ + a.name@ + " ("@ + a.content_type@ + ", "@ + a.size_label@ + ")"@
}

/// The accounts part: a heading, the first twenty accounts, and how many
/// more were left out.
pub open spec fn account_lines(accts: Seq<WorkingContextAccount>) -> Seq<Seq<char>> {
    if accts.len() == 0 {
        Seq::empty()
    } else {
        let shown = if accts.len() > 20 {
            accts.take(20)
        } else {
            accts
        };
        let more = if accts.len() > 20 {
            seq!["- ... "@ + decimal((accts.len() - 20) as nat) + " more account(s) omitted"@]
        } else {
            Seq::empty()
        };
        seq!["Accounts:"@] + shown.map_values(|a: WorkingContextAccount| account_line(a)) + more
    }
}

pub open spec fn attachment_lines(atts: Seq<WorkingContextAttachment>) -> Seq<Seq<char>> {
    if atts.len() == 0 {
        Seq::empty()
    } else {
        seq!["Attachments available this session:"@] + atts.map_values(
            |a: WorkingContextAttachment| attachment_line(a),
        )
    }
}

pub open spec fn opt_line(lead: Seq<char>, v: Option<Seq<char>>) -> Seq<Seq<char>> {
    match v {
        Some(x) => seq![lead + x],
        None => Seq::empty(),
    }
}

pub open spec fn import_lines(imp: Option<WorkingContextImport>) -> Seq<Seq<char>> {
    match imp {
        None => Seq::empty(),
        Some(i) => {
            let rows = match i.rows {
                Some(r) => seq!["- rows prepared: "@ + decimal(r as nat)],
                None => Seq::empty(),
            };
            let status = if i.submitted {
                let n: nat = match i.imported_count {
                    Some(c) => c as nat,
                    None => 0,
                };
                "- status: imported "@ + decimal(n) + " activit"@ + if i.imported_count == Some(1usize) {
                    "y"@
                } else {
                    "ies"@
                }
            } else {
                "- status: prepared, not imported yet"@
            };
            seq!["Current CSV import:"@] + rows + opt_line("- target account id: "@, opt_text(i.account_id))
                + opt_line("- mapping confidence: "@, opt_text(i.confidence)) + seq![status]
        },
    }
}

pub open spec fn preamble() -> Seq<Seq<char>> {
    seq![
        "## Known App Context"@,
        "Use these compact facts for references. Do not call tools only to re-fetch information already listed here; call tools when fresh data is needed."@,
    ]
}

/// `lines` joined with newlines.
pub open spec fn joined(lines: Seq<Seq<char>>) -> Seq<char>
    decreases lines.len(),
{
    if lines.len() == 0 {
        Seq::empty()
    } else if lines.len() == 1 {
        lines[0]
    } else {
        joined(lines.drop_last()) + "\n"@ + lines.last()
    }
}

/// The rendered block: nothing when the context is empty.
pub open spec fn rendered(c: ChatWorkingContext) -> Option<Seq<char>> {
    if c.accounts@.len() == 0 && c.attachments@.len() == 0 && c.current_import is None {
        None
    } else {
        Some(
            joined(
                preamble() + account_lines(c.accounts@) + attachment_lines(c.attachments@) + import_lines(
                    c.current_import,
                ),
            ),
        )
    }
}

fn push_line(lines: &mut Vec<String>, line: String)
    ensures
        strings_view(final(lines)@) == strings_view(old(lines)@).push(line@),
{
    let ghost before = lines@;
    lines.push(line);
    assert(strings_view(lines@) =~= strings_view(before).push(line@));
}

fn account_text(a: &WorkingContextAccount) -> (r: String)
    ensures
        r@ == account_line(*a),
{
    let mut s = owned("- ");
    push_str(&mut s, a.name.as_str());
    push_str(&mut s, ": id=");
    push_str(&mut s, a.id.as_str());
    push_str(&mut s, ", currency=");
    push_str(&mut s, a.currency.as_str());
    s
}

fn attachment_text(a: &WorkingContextAttachment) -> (r: String)
    ensures
        r@ == attachment_line(*a),
{
    let mut s = owned("- ");
    push_str(&mut s, a.name.as_str());
    push_str(&mut s, " (");
    push_str(&mut s, a.content_type.as_str());
    push_str(&mut s, ", ");
    push_str(&mut s, a.size_label.as_str());
    push_str(&mut s, ")");
    s
}

fn join_lines(lines: &Vec<String>) -> (r: String)
    ensures
        r@ == joined(strings_view(lines@)),
{
    let ghost lv = strings_view(lines@);
    let mut out = String::new();
    let mut i: usize = 0;
    assert(lv.take(0).len() == 0);
    assert(out@ =~= joined(lv.take(0)));
    while i < lines.len()
        invariant
            lv == strings_view(lines@),
            i <= lines.len(),
            out@ == joined(lv.take(i as int)),
        decreases lines.len() - i,
    {
        assert(lv.take(i + 1).drop_last() =~= lv.take(i as int));
        assert(lv.take(i + 1).last() == lines@[i as int]@);
        if i > 0 {
            push_str(&mut out, "\n");
        } else {
            assert(out@ =~= Seq::<char>::empty());
            assert(lv.take(1)[0] == lines@[0]@);
        }
        push_str(&mut out, lines[i].as_str());
        i = i + 1;
    }
    assert(lv.take(lines.len() as int) =~= lv);
    out
}

fn push_account_lines(lines: &mut Vec<String>, accounts: &Vec<WorkingContextAccount>)
    ensures
        strings_view(final(lines)@) == strings_view(old(lines)@) + account_lines(accounts@),
{
    let ghost base = strings_view(lines@);
    let n = accounts.len();
    if n == 0 {
        assert(strings_view(lines@) =~= base + account_lines(accounts@));
        return;
    }
    push_line(lines, owned("Accounts:"));
    let shown = if n > MAX_WORKING_CONTEXT_ACCOUNTS {
        MAX_WORKING_CONTEXT_ACCOUNTS
    } else {
        n
    };
    let ghost head = strings_view(lines@);
    let ghost accts = accounts@;
    let mut i: usize = 0;
    while i < shown
        invariant
            i <= shown <= n,
            n == accounts@.len(),
            accts == accounts@,
            strings_view(lines@) == head + accts.take(i as int).map_values(|a: WorkingContextAccount| account_line(a)),
        decreases shown - i,
    {
        let t = account_text(&accounts[i]);
        push_line(lines, t);
        assert(accts.take(i + 1).map_values(|a: WorkingContextAccount| account_line(a)) =~= accts.take(
            i as int,
        ).map_values(|a: WorkingContextAccount| account_line(a)).push(account_line(accts[i as int])));
        i = i + 1;
    }
    if n > MAX_WORKING_CONTEXT_ACCOUNTS {
        let mut more = owned("- ... ");
        let count = decimal_string(n - MAX_WORKING_CONTEXT_ACCOUNTS);
        push_str(&mut more, count.as_str());
        push_str(&mut more, " more account(s) omitted");
        push_line(lines, more);
    } else {
        assert(accts.take(n as int) =~= accts);
    }
    assert(strings_view(lines@) =~= base + account_lines(accounts@));
}

fn push_attachment_lines(lines: &mut Vec<String>, attachments: &Vec<WorkingContextAttachment>)
    ensures
        strings_view(final(lines)@) == strings_view(old(lines)@) + attachment_lines(attachments@),
{
    let ghost base = strings_view(lines@);
    let m = attachments.len();
    if m == 0 {
        assert(strings_view(lines@) =~= base + attachment_lines(attachments@));
        return;
    }
    push_line(lines, owned("Attachments available this session:"));
    let ghost head = strings_view(lines@);
    let ghost atts = attachments@;
    let mut j: usize = 0;
    while j < m
        invariant
            j <= m,
            m == attachments@.len(),
            atts == attachments@,
            strings_view(lines@) == head + atts.take(j as int).map_values(
                |a: WorkingContextAttachment| attachment_line(a),
            ),
        decreases m - j,
    {
        let t = attachment_text(&attachments[j]);
        push_line(lines, t);
        assert(atts.take(j + 1).map_values(|a: WorkingContextAttachment| attachment_line(a)) =~= atts.take(
            j as int,
        ).map_values(|a: WorkingContextAttachment| attachment_line(a)).push(attachment_line(atts[j as int])));
        j = j + 1;
    }
    assert(atts.take(m as int) =~= atts);
    assert(strings_view(lines@) =~= base + attachment_lines(attachments@));
}

fn status_text(imp: &WorkingContextImport) -> (r: String)
    ensures
        r@ == (if imp.submitted {
            let n: nat = match imp.imported_count {
                Some(c) => c as nat,
                None => 0,
            };
            "- status: imported "@ + decimal(n) + " activit"@ + if imp.imported_count == Some(1usize) {
                "y"@
            } else {
                "ies"@
            }
        } else {
            "- status: prepared, not imported yet"@
        }),
{
    if imp.submitted {
        let count: usize = match imp.imported_count {
            Some(c) => c,
            None => 0,
        };
        let mut s = owned("- status: imported ");
        let d = decimal_string(count);
        push_str(&mut s, d.as_str());
        push_str(&mut s, " activit");
        let one = match imp.imported_count {
            Some(c) => c == 1,
            None => false,
        };
        if one {
            push_str(&mut s, "y");
        } else {
            push_str(&mut s, "ies");
        }
        s
    } else {
        owned("- status: prepared, not imported yet")
    }
}

fn push_opt_line(lines: &mut Vec<String>, lead: &str, v: &Option<String>)
    ensures
        strings_view(final(lines)@) == strings_view(old(lines)@) + opt_line(lead@, opt_text(*v)),
{
    let ghost base = strings_view(lines@);
    match v {
        Some(x) => {
            let mut s = owned(lead);
            push_str(&mut s, x.as_str());
            push_line(lines, s);
        },
        None => {},
    }
    assert(strings_view(lines@) =~= base + opt_line(lead@, opt_text(*v)));
}

fn push_import_lines(lines: &mut Vec<String>, current: &Option<WorkingContextImport>)
    ensures
        strings_view(final(lines)@) == strings_view(old(lines)@) + import_lines(*current),
{
    let ghost base = strings_view(lines@);
    match current {
        Some(imp) => {
            push_line(lines, owned("Current CSV import:"));
            let ghost after_head = strings_view(lines@);
            match imp.rows {
                Some(r) => {
                    let mut s = owned("- rows prepared: ");
                    let d = decimal_string(r);
                    push_str(&mut s, d.as_str());
                    push_line(lines, s);
                },
                None => {},
            }
            let ghost rows = match imp.rows {
                Some(r) => seq!["- rows prepared: "@ + decimal(r as nat)],
                None => Seq::<Seq<char>>::empty(),
            };
            assert(strings_view(lines@) =~= after_head + rows);
            push_opt_line(lines, "- target account id: ", &imp.account_id);
            push_opt_line(lines, "- mapping confidence: ", &imp.confidence);
            let st = status_text(imp);
            push_line(lines, st);
        },
        None => {},
    }
    assert(strings_view(lines@) =~= base + import_lines(*current));
}

impl ChatWorkingContext {
    /// The context block for the preamble (see [`rendered`]).
    pub fn render(&self) -> (r: Option<String>)
        ensures
            match rendered(*self) {
                Some(t) => r matches Some(s) && s@ == t,
                None => r is None,
            },
    {
        if self.accounts.len() == 0 && self.attachments.len() == 0 && self.current_import.is_none() {
            return None;
        }
        let mut lines: Vec<String> = Vec::new();
        push_line(&mut lines, owned("## Known App Context"));
        push_line(
            &mut lines,
            owned(
                "Use these compact facts for references. Do not call tools only to re-fetch information already listed here; call tools when fresh data is needed.",
            ),
        );
        assert(strings_view(lines@) =~= preamble());
        push_account_lines(&mut lines, &self.accounts);
        push_attachment_lines(&mut lines, &self.attachments);
        push_import_lines(&mut lines, &self.current_import);
        Some(join_lines(&lines))
    }
}


// ─── reading the conversation ─────────────────────────────────────────────

/// An account entry of a tool result.
pub struct AccountEntry {
    pub id: Option<String>,
    pub name: Option<String>,
    pub currency: Option<String>,
}

/// What the context reads of a successful tool result: the `accounts` and
/// `availableAccounts` arrays, and the import fields.
pub struct ToolResultData {
    pub accounts: Option<Vec<AccountEntry>>,
    pub available_accounts: Option<Vec<AccountEntry>>,
    pub total_rows: Option<u64>,
    pub account_id: Option<String>,
    pub mapping_confidence: Option<String>,
    pub submitted: Option<bool>,
    pub imported_count: Option<u64>,
}

/// A part of a chat message, as far as the context reads it.
pub enum ChatPart {
    ToolCall { tool_call_id: String, name: String },
    ToolResult { tool_call_id: String, success: bool, data: ToolResultData },
    Other,
}

pub struct ChatMessage {
    pub is_assistant: bool,
    pub parts: Vec<ChatPart>,
}

pub type AccountTriple = (Seq<char>, Seq<char>, Seq<char>);

pub type ImportView = (Option<nat>, Option<Seq<char>>, Option<Seq<char>>, bool, Option<nat>);

pub open spec fn account_triple(a: WorkingContextAccount) -> AccountTriple {
    (a.id@, a.name@, a.currency@)
}

pub open spec fn accounts_view(v: Seq<WorkingContextAccount>) -> Seq<AccountTriple> {
    v.map_values(|a: WorkingContextAccount| account_triple(a))
}

pub open spec fn import_view(i: Option<WorkingContextImport>) -> Option<ImportView> {
    match i {
        Some(x) => Some(
            (
                match x.rows {
                    Some(r) => Some(r as nat),
                    None => None,
                },
                opt_text(x.account_id),
                opt_text(x.confidence),
                x.submitted,
                match x.imported_count {
                    Some(c) => Some(c as nat),
                    None => None,
                },
            ),
        ),
        None => None,
    }
}

/// An entry with an id and a name is an account; its currency defaults to
/// empty.
pub open spec fn entry_account(e: AccountEntry) -> Option<AccountTriple> {
    match (e.id, e.name) {
        (Some(id), Some(name)) => Some(
            (
                id@,
                name@,
                match e.currency {
                    Some(c) => c@,
                    None => Seq::empty(),
                },
            ),
        ),
        _ => None,
    }
}

pub open spec fn entry_accounts(s: Seq<AccountEntry>) -> Seq<AccountTriple>
    decreases s.len(),
{
    if s.len() == 0 {
        Seq::empty()
    } else {
        let p = entry_accounts(s.drop_last());
        match entry_account(s.last()) {
            Some(a) => p.push(a),
            None => p,
        }
    }
}

/// The accounts of an array of entries; none when there is no array or no
/// entry is an account.
pub open spec fn extracted(entries: Option<Vec<AccountEntry>>) -> Option<Seq<AccountTriple>> {
    match entries {
        Some(v) => if entry_accounts(v@).len() == 0 {
            None
        } else {
            Some(entry_accounts(v@))
        },
        None => None,
    }
}

/// A count that fits a `usize`.
pub open spec fn count_of(n: Option<u64>) -> Option<nat> {
    match n {
        Some(x) => if x <= usize::MAX {
            Some(x as nat)
        } else {
            None
        },
        None => None,
    }
}

pub type State = (Seq<AccountTriple>, Option<ImportView>);

/// What a successful result of tool `tool` changes: the account list of
/// `get_accounts`; the account list and the import of `import_csv`.
pub open spec fn ingest(st: State, tool: Seq<char>, d: ToolResultData) -> State {
    if tool == "get_accounts"@ {
        match extracted(d.accounts) {
            Some(a) => (a, st.1),
            None => st,
        }
    } else if tool == "import_csv"@ {
        let accts = match extracted(d.available_accounts) {
            Some(a) => a,
            None => st.0,
        };
        let imp: ImportView = (
            count_of(d.total_rows),
            opt_text(d.account_id),
            opt_text(d.mapping_confidence),
            match d.submitted {
                Some(b) => b,
                None => false,
            },
            count_of(d.imported_count),
        );
        (accts, Some(imp))
    } else {
        st
    }
}

/// The name of the latest call with id `id` among `parts`.
pub open spec fn call_name(parts: Seq<ChatPart>, id: Seq<char>) -> Option<Seq<char>>
    decreases parts.len(),
{
    if parts.len() == 0 {
        None
    } else {
        match parts.last() {
            ChatPart::ToolCall { tool_call_id, name } => if tool_call_id@ == id {
                Some(name@)
            } else {
                call_name(parts.drop_last(), id)
            },
            _ => call_name(parts.drop_last(), id),
        }
    }
}

/// The state after the first `k` parts of a message: each successful
/// result of a call made earlier in the message is ingested.
pub open spec fn after_parts(st: State, parts: Seq<ChatPart>, k: int) -> State
    decreases k,
{
    if k <= 0 {
        st
    } else {
        let prior = after_parts(st, parts, k - 1);
        match parts[k - 1] {
            ChatPart::ToolResult { tool_call_id, success, data } => if success {
                match call_name(parts.take(k - 1), tool_call_id@) {
                    Some(name) => ingest(prior, name, data),
                    None => prior,
                }
            } else {
                prior
            },
            _ => prior,
        }
    }
}

/// The state after the first `k` messages; only the assistant's count.
pub open spec fn after_messages(st: State, msgs: Seq<ChatMessage>, k: int) -> State
    decreases k,
{
    if k <= 0 {
        st
    } else {
        let prior = after_messages(st, msgs, k - 1);
        let m = msgs[k - 1];
        if m.is_assistant {
            after_parts(prior, m.parts@, m.parts@.len() as int)
        } else {
            prior
        }
    }
}

fn copy_text(s: &Option<String>) -> (r: Option<String>)
    ensures
        opt_text(r) == opt_text(*s),
{
    match s {
        Some(x) => Some(owned(x.as_str())),
        None => None,
    }
}

fn count_exec(n: Option<u64>) -> (r: Option<usize>)
    ensures
        match r {
            Some(x) => count_of(n) == Some(x as nat),
            None => count_of(n) is None,
        },
{
    match n {
        Some(x) => if x as u128 <= usize::MAX as u128 {
            Some(x as usize)
        } else {
            None
        },
        None => None,
    }
}

fn extract_accounts(entries: &Option<Vec<AccountEntry>>) -> (r: Option<Vec<WorkingContextAccount>>)
    ensures
        match r {
            Some(v) => extracted(*entries) == Some(accounts_view(v@)),
            None => extracted(*entries) is None,
        },
{
    match entries {
        None => None,
        Some(v) => {
            let mut out: Vec<WorkingContextAccount> = Vec::new();
            let mut i: usize = 0;
            assert(v@.take(0).len() == 0);
            while i < v.len()
                invariant
                    i <= v.len(),
                    accounts_view(out@) == entry_accounts(v@.take(i as int)),
                decreases v.len() - i,
            {
                let e = &v[i];
                assert(v@.take(i + 1).drop_last() =~= v@.take(i as int));
                assert(v@.take(i + 1).last() == *e);
                match (&e.id, &e.name) {
                    (Some(id), Some(name)) => {
                        let currency = match &e.currency {
                            Some(c) => owned(c.as_str()),
                            None => String::new(),
                        };
                        let a = WorkingContextAccount { id: owned(id.as_str()), name: owned(name.as_str()), currency };
                        let ghost before = out@;
                        out.push(a);
                        assert(accounts_view(out@) =~= accounts_view(before).push(account_triple(a)));
                    },
                    _ => {},
                }
                i = i + 1;
            }
            assert(v@.take(v.len() as int) =~= v@);
            if out.len() == 0 {
                None
            } else {
                Some(out)
            }
        },
    }
}

impl ChatWorkingContext {
    pub open spec fn state(&self) -> State {
        (accounts_view(self.accounts@), import_view(self.current_import))
    }

    /// Takes in a successful result of tool `tool_name` (see [`ingest`]).
    pub fn ingest_tool_result(&mut self, tool_name: &str, data: &ToolResultData)
        ensures
            final(self).state() == ingest(old(self).state(), tool_name@, *data),
            final(self).attachments@ == old(self).attachments@,
    {
        if str_eq(tool_name, "get_accounts") {
            match extract_accounts(&data.accounts) {
                Some(a) => {
                    self.accounts = a;
                },
                None => {},
            }
        } else if str_eq(tool_name, "import_csv") {
            match extract_accounts(&data.available_accounts) {
                Some(a) => {
                    self.accounts = a;
                },
                None => {},
            }
            let submitted = match data.submitted {
                Some(b) => b,
                None => false,
            };
            self.current_import = Some(
                WorkingContextImport {
                    rows: count_exec(data.total_rows),
                    account_id: copy_text(&data.account_id),
                    confidence: copy_text(&data.mapping_confidence),
                    submitted,
                    imported_count: count_exec(data.imported_count),
                },
            );
        }
    }

    /// The context of a conversation: its first ten attachments, and the
    /// accounts and import that the assistant's successful tool results
    /// showed, later results replacing earlier ones (see [`after_messages`]).
    pub fn from_messages_and_attachments(messages: &Vec<ChatMessage>, attachments: Vec<WorkingContextAttachment>) -> (r:
        Self)
        ensures
            r.state() == after_messages((Seq::empty(), None), messages@, messages@.len() as int),
            r.attachments@ == attachments@.take(if attachments@.len() > 10 {
                10int
            } else {
                attachments@.len() as int
            }),
    {
        let mut kept = attachments;
        kept.truncate(MAX_WORKING_CONTEXT_ATTACHMENTS);
        let mut context = ChatWorkingContext { accounts: Vec::new(), attachments: kept, current_import: None };
        let ghost kept_view = context.attachments@;
        assert(accounts_view(context.accounts@) =~= Seq::<AccountTriple>::empty());
        let mut i: usize = 0;
        while i < messages.len()
            invariant
                i <= messages.len(),
                context.state() == after_messages((Seq::empty(), None), messages@, i as int),
                context.attachments@ == kept_view,
            decreases messages.len() - i,
        {
            let m = &messages[i];
            if m.is_assistant {
                let mut k: usize = 0;
                let ghost start = context.state();
                while k < m.parts.len()
                    invariant
                        k <= m.parts.len(),
                        context.state() == after_parts(start, m.parts@, k as int),
                        context.attachments@ == kept_view,
                    decreases m.parts.len() - k,
                {
                    match &m.parts[k] {
                        ChatPart::ToolResult { tool_call_id, success, data } => {
                            if *success {
                                match find_call(&m.parts, k, tool_call_id.as_str()) {
                                    Some(name) => {
                                        context.ingest_tool_result(name.as_str(), data);
                                    },
                                    None => {},
                                }
                            }
                        },
                        _ => {},
                    }
                    k = k + 1;
                }
            }
            i = i + 1;
        }
        context
    }
}

/// The name of the latest call with id `id` among the first `k` parts.
fn find_call(parts: &Vec<ChatPart>, k: usize, id: &str) -> (r: Option<String>)
    requires
        k <= parts@.len(),
    ensures
        opt_text(r) == call_name(parts@.take(k as int), id@),
{
    let mut j: usize = k;
    while j > 0
        invariant
            j <= k <= parts@.len(),
            call_name(parts@.take(k as int), id@) == call_name(parts@.take(j as int), id@),
        decreases j,
    {
        assert(parts@.take(j as int).drop_last() =~= parts@.take(j - 1));
        assert(parts@.take(j as int).last() == parts@[j - 1]);
        match &parts[j - 1] {
            ChatPart::ToolCall { tool_call_id, name } => {
                if str_eq(tool_call_id.as_str(), id) {
                    return Some(owned(name.as_str()));
                }
            },
            _ => {},
        }
        j = j - 1;
    }
    None
}
} // verus!
