//! Which folders the user has said they trust.
use crate::keys::{Key, KeyPress};
use crate::text::{concat2, concat3, decimal, decimal_of, owned, same_text};
use crate::ui::style::{push_line, span, Color, Line, Span, SpanModel, Style};
use vstd::prelude::*;

verus! {

pub const TRUST_SCHEMA_VERSION: u32 = 1;

#[derive(Debug, Clone, Copy, PartialEq, Eq, Structural)]
pub enum TrustDecision {
    Trusted,
    Exit,
}

/// A folder: its canonical path, and the device and inode that it is on this machine.
#[derive(Debug)]
pub struct WorkspaceIdentity {
    pub path: String,
    pub device: Option<u64>,
    pub inode: Option<u64>,
}

#[verifier::ext_equal]
pub struct IdentityModel {
    pub path: Seq<char>,
    pub device: Option<u64>,
    pub inode: Option<u64>,
}

impl DeepView for WorkspaceIdentity {
    type V = IdentityModel;

    open spec fn deep_view(&self) -> IdentityModel {
        IdentityModel { path: self.path@, device: self.device, inode: self.inode }
    }
}

/// A folder that is trusted, and since when.
#[derive(Debug)]
pub struct TrustedWorkspace {
    pub path: String,
    pub device: Option<u64>,
    pub inode: Option<u64>,
    pub trusted_at: String,
}

#[verifier::ext_equal]
pub struct TrustedModel {
    pub path: Seq<char>,
    pub device: Option<u64>,
    pub inode: Option<u64>,
    pub trusted_at: Seq<char>,
}

impl DeepView for TrustedWorkspace {
    type V = TrustedModel;

    open spec fn deep_view(&self) -> TrustedModel {
        TrustedModel {
            path: self.path@,
            device: self.device,
            inode: self.inode,
            trusted_at: self.trusted_at@,
        }
    }
}

impl TrustedModel {
    /// Whether the trust is in this very folder, and not in another that has taken its path.
    pub open spec fn covers(self, workspace: IdentityModel) -> bool {
        &&& self.path == workspace.path
        &&& self.device is Some && self.device == workspace.device
        &&& self.inode is Some && self.inode == workspace.inode
    }
}

fn same_number(a: Option<u64>, b: Option<u64>) -> (r: bool)
    ensures
        r == (a is Some && a == b),
{
    match a {
        Some(a) => match b {
            Some(b) => a == b,
            None => false,
        },
        None => false,
    }
}

impl TrustedWorkspace {
    pub fn matches(&self, workspace: &WorkspaceIdentity) -> (r: bool)
        ensures
            r == self.deep_view().covers(workspace.deep_view()),
    {
        same_text(self.path.as_str(), workspace.path.as_str()) && same_number(
            self.device,
            workspace.device,
        ) && same_number(self.inode, workspace.inode)
    }
}

/// The folders that are trusted.
#[derive(Debug)]
pub struct TrustDatabase {
    pub schema_version: u32,
    pub workspaces: Vec<TrustedWorkspace>,
}

pub open spec fn unsupported(version: u32, path: Seq<char>) -> Seq<char> {
    "Unsupported workspace trust schema version "@ + decimal(version as nat) + " in "@ + path
}

pub open spec fn some_covers(trusted: Seq<TrustedModel>, workspace: IdentityModel) -> bool {
    exists|i: int| 0 <= i < trusted.len() && (#[trigger] trusted[i]).covers(workspace)
}

/// The entries but those of a path.
pub open spec fn without_path(trusted: Seq<TrustedModel>, path: Seq<char>) -> Seq<TrustedModel>
    decreases trusted.len(),
{
    if trusted.len() == 0 {
        Seq::empty()
    } else if trusted.last().path == path {
        without_path(trusted.drop_last(), path)
    } else {
        without_path(trusted.drop_last(), path).push(trusted.last())
    }
}

/// The entries with trust in a folder, in place of any in its path.
pub open spec fn trusting(
    trusted: Seq<TrustedModel>,
    workspace: IdentityModel,
    now: Seq<char>,
) -> Seq<TrustedModel> {
    without_path(trusted, workspace.path).push(
        TrustedModel {
            path: workspace.path,
            device: workspace.device,
            inode: workspace.inode,
            trusted_at: now,
        },
    )
}

impl TrustDatabase {
    /// The database of one who trusts no folder yet.
    pub fn empty() -> (r: Self)
        ensures
            r.schema_version == TRUST_SCHEMA_VERSION,
            r.workspaces.deep_view() == Seq::<TrustedModel>::empty(),
    {
        let r = TrustDatabase { schema_version: TRUST_SCHEMA_VERSION, workspaces: Vec::new() };
        assert(r.workspaces.deep_view() =~= Seq::<TrustedModel>::empty());
        r
    }

    /// Why a database that was read from `path` cannot be used, if it cannot.
    pub fn check(&self, path: &str) -> (r: Result<(), String>)
        ensures
            match r {
                Ok(_) => self.schema_version == TRUST_SCHEMA_VERSION,
                Err(message) => self.schema_version != TRUST_SCHEMA_VERSION && message@
                    == unsupported(self.schema_version, path@),
            },
    {
        if self.schema_version == TRUST_SCHEMA_VERSION {
            Ok(())
        } else {
            let head = concat3(
                "Unsupported workspace trust schema version ",
                decimal_of(self.schema_version as u64).as_str(),
                " in ",
            );
            Err(concat2(head.as_str(), path))
        }
    }

    /// Notes trust in a folder.
    pub fn trust(&mut self, workspace: &WorkspaceIdentity, now: &str)
        ensures
            final(self).schema_version == old(self).schema_version,
            final(self).workspaces.deep_view() == trusting(
                old(self).workspaces.deep_view(),
                workspace.deep_view(),
                now@,
            ),
    {
        let ghost all = self.workspaces.deep_view();
        let mut given: Vec<TrustedWorkspace> = Vec::new();
        core::mem::swap(&mut given, &mut self.workspaces);
        let ghost items = given@;
        let mut kept: Vec<TrustedWorkspace> = Vec::new();
        assert(kept.deep_view() =~= Seq::empty());
        assert(all.take(0) =~= Seq::empty());
        for entry in it: given
            invariant
                it.seq() == items,
                all.len() == items.len(),
                forall|i: int| 0 <= i < items.len() ==> #[trigger] all[i] == items[i].deep_view(),
                kept.deep_view() == without_path(all.take(it.index()), workspace.path@),
        {
            let ghost before = kept.deep_view();
            assert(all.take(it.index() + 1).drop_last() =~= all.take(it.index()));
            assert(all[it.index()] == items[it.index()].deep_view());
            if !same_text(entry.path.as_str(), workspace.path.as_str()) {
                let ghost added = entry.deep_view();
                kept.push(entry);
                assert(kept.deep_view() =~= before.push(added));
            }
        }
        assert(all.take(all.len() as int) =~= all);
        let ghost before = kept.deep_view();
        let entry = TrustedWorkspace {
            path: workspace.path.clone(),
            device: workspace.device,
            inode: workspace.inode,
            trusted_at: owned(now),
        };
        let ghost added = entry.deep_view();
        kept.push(entry);
        assert(kept.deep_view() =~= before.push(added));
        self.workspaces = kept;
    }
}

/// Where the database is kept.
#[derive(Debug)]
pub struct WorkspaceTrustStore {
    path: String,
}

impl View for WorkspaceTrustStore {
    type V = Seq<char>;

    closed spec fn view(&self) -> Seq<char> {
        self.path@
    }
}

impl WorkspaceTrustStore {
    pub fn at(path: String) -> (r: Self)
        ensures
            r@ == path@,
    {
        WorkspaceTrustStore { path }
    }

    pub fn path(&self) -> (r: &str)
        ensures
            r@ == self@,
    {
        self.path.as_str()
    }

    /// Whether a folder is trusted, by the database that was read from the store.
    pub fn is_trusted(&self, database: &TrustDatabase, workspace: &WorkspaceIdentity) -> (r: Result<
        bool,
        String,
    >)
        ensures
            match r {
                Ok(trusted) => database.schema_version == TRUST_SCHEMA_VERSION && trusted
                    == some_covers(database.workspaces.deep_view(), workspace.deep_view()),
                Err(message) => database.schema_version != TRUST_SCHEMA_VERSION && message@
                    == unsupported(database.schema_version, self@),
            },
    {
        if let Err(message) = database.check(self.path.as_str()) {
            return Err(message);
        }
        let ghost all = database.workspaces.deep_view();
        let mut i: usize = 0;
        while i < database.workspaces.len()
            invariant
                database.schema_version == TRUST_SCHEMA_VERSION,
                all == database.workspaces.deep_view(),
                i <= database.workspaces.len(),
                forall|j: int| 0 <= j < i ==> !(#[trigger] all[j]).covers(workspace.deep_view()),
            decreases database.workspaces.len() - i,
        {
            assert(all[i as int] == database.workspaces@[i as int].deep_view());
            if database.workspaces[i].matches(workspace) {
                return Ok(true);
            }
            i += 1;
        }
        Ok(false)
    }
}

/// What is to be done about a folder.
#[derive(Debug)]
pub enum TrustStep {
    /// Nothing: it is trusted.
    GoOn,
    /// The user is to be asked.
    Ask,
    /// The user cannot be asked, so the folder is refused.
    Refuse { message: String },
}

/// Decides what is to be done about a folder, by whether it is trusted and whether there is a
/// terminal to ask on.
pub fn trust_step(trusted: bool, interactive: bool, path: &str) -> (r: TrustStep)
    ensures
        r is GoOn <==> trusted,
        r is Ask <==> !trusted && interactive,
        r matches TrustStep::Refuse { message } ==> message@ == "Workspace is not trusted: "@
            + path@
            + ". Run DeepCode from an interactive terminal once to review and trust this folder."@,
{
    if trusted {
        TrustStep::GoOn
    } else if interactive {
        TrustStep::Ask
    } else {
        TrustStep::Refuse {
            message: concat3(
                "Workspace is not trusted: ",
                path,
                ". Run DeepCode from an interactive terminal once to review and trust this folder.",
            ),
        }
    }
}

/// What a key does while the user is asked.
#[derive(Debug, Clone, Copy, PartialEq, Eq, Structural)]
pub enum PromptAction {
    Select(usize),
    Confirm(TrustDecision),
    Ignore,
}

pub open spec fn key_action(key: KeyPress, selected: usize) -> PromptAction {
    match key.code {
        Key::Up | Key::Char('k') => PromptAction::Select(0),
        Key::Down | Key::Char('j') | Key::Tab => PromptAction::Select(1),
        Key::Char('1') | Key::Char('y') | Key::Char('Y') => PromptAction::Confirm(
            TrustDecision::Trusted,
        ),
        Key::Char('2') | Key::Char('n') | Key::Char('N') | Key::Char('q') =>
            PromptAction::Confirm(TrustDecision::Exit),
        Key::Enter => PromptAction::Confirm(
            if selected == 0 {
                TrustDecision::Trusted
            } else {
                TrustDecision::Exit
            },
        ),
        Key::Esc => PromptAction::Confirm(TrustDecision::Exit),
        Key::Char('c') => if key.control {
            PromptAction::Confirm(TrustDecision::Exit)
        } else {
            PromptAction::Ignore
        },
        _ => PromptAction::Ignore,
    }
}

pub fn trust_key(key: KeyPress, selected: usize) -> (r: PromptAction)
    ensures
        r == key_action(key, selected),
{
    match key.code {
        Key::Up | Key::Char('k') => PromptAction::Select(0),
        Key::Down | Key::Char('j') | Key::Tab => PromptAction::Select(1),
        Key::Char('1') | Key::Char('y') | Key::Char('Y') => PromptAction::Confirm(
            TrustDecision::Trusted,
        ),
        Key::Char('2') | Key::Char('n') | Key::Char('N') | Key::Char('q') =>
            PromptAction::Confirm(TrustDecision::Exit),
        Key::Enter => PromptAction::Confirm(
            if selected == 0 {
                TrustDecision::Trusted
            } else {
                TrustDecision::Exit
            },
        ),
        Key::Esc => PromptAction::Confirm(TrustDecision::Exit),
        Key::Char('c') => if key.control {
            PromptAction::Confirm(TrustDecision::Exit)
        } else {
            PromptAction::Ignore
        },
        _ => PromptAction::Ignore,
    }
}

/// The lines of the choices, the selected one marked, and what the keys do.
pub open spec fn choice_lines(selected: usize) -> Seq<Seq<SpanModel>> {
    let marked = Style { bold: true, ..Style::colored(Color::Blue) };
    seq![
        if selected == 0 {
            seq![span("> 1. Yes, I trust this folder"@, marked)]
        } else {
            seq![span("  1. Yes, I trust this folder"@, Style::normal())]
        },
        if selected == 1 {
            seq![span("> 2. No, exit"@, marked)]
        } else {
            seq![span("  2. No, exit"@, Style::normal())]
        },
        Seq::empty(),
        seq![span("Enter to confirm · Esc to cancel"@, Style::colored(Color::DarkGray))],
    ]
}

pub fn render_choices(selected: usize) -> (r: Vec<Line>)
    ensures
        r.deep_view() == choice_lines(selected),
{
    let marked = Style { bold: true, ..Style::of(Color::Blue) };
    let yes = if selected == 0 {
        Line::of(Span::styled("> 1. Yes, I trust this folder", marked))
    } else {
        Line::of(Span::raw("  1. Yes, I trust this folder"))
    };
    let no = if selected == 1 {
        Line::of(Span::styled("> 2. No, exit", marked))
    } else {
        Line::of(Span::raw("  2. No, exit"))
    };
    let hint = Line::of(
        Span::styled("Enter to confirm · Esc to cancel", Style::of(Color::DarkGray)),
    );
    let mut lines: Vec<Line> = Vec::new();
    assert(lines.deep_view() =~= Seq::empty());
    push_line(&mut lines, yes);
    push_line(&mut lines, no);
    push_line(&mut lines, Line::blank());
    push_line(&mut lines, hint);
    assert(lines.deep_view()[0] =~= choice_lines(selected)[0]);
    assert(lines.deep_view()[1] =~= choice_lines(selected)[1]);
    assert(lines.deep_view()[3] =~= choice_lines(selected)[3]);
    assert(lines.deep_view() =~= choice_lines(selected));
    lines
}

/// The prompt fails closed: only a yes, or Enter on it, gives trust.
pub proof fn law_only_a_yes_gives_trust(key: KeyPress, selected: usize)
    requires
        key_action(key, selected) == PromptAction::Confirm(TrustDecision::Trusted),
    ensures
        (key.code is Enter && selected == 0) || key.code == Key::Char('1') || key.code
            == Key::Char('y') || key.code == Key::Char('Y'),
{
}

/// A folder is trusted after trust in it was noted, and no other folder gains trust by it: not
/// one of another path, nor another one under the same path.
pub proof fn law_trust_is_in_one_folder(
    trusted: Seq<TrustedModel>,
    workspace: IdentityModel,
    other: IdentityModel,
    now: Seq<char>,
)
    requires
        workspace.device is Some,
        workspace.inode is Some,
    ensures
        some_covers(trusting(trusted, workspace, now), workspace),
        other.path != workspace.path ==> some_covers(trusting(trusted, workspace, now), other)
            == some_covers(trusted, other),
        other.path == workspace.path && (other.device != workspace.device || other.inode
            != workspace.inode) ==> !some_covers(trusting(trusted, workspace, now), other),
{
    let all = trusting(trusted, workspace, now);
    let rest = without_path(trusted, workspace.path);
    assert(all[rest.len() as int].covers(workspace));
    lemma_without_path(trusted, workspace.path);
    if some_covers(all, other) {
        let i = choose|i: int| 0 <= i < all.len() && (#[trigger] all[i]).covers(other);
        if i < rest.len() {
            assert(all[i] == rest[i]);
            let k = choose|k: int| 0 <= k < trusted.len() && trusted[k] == rest[i];
            assert(trusted[k].covers(other));
        }
    }
    if other.path != workspace.path && some_covers(trusted, other) {
        let k = choose|k: int| 0 <= k < trusted.len() && (#[trigger] trusted[k]).covers(other);
        assert(rest.contains(trusted[k]));
        let i = choose|i: int| 0 <= i < rest.len() && rest[i] == trusted[k];
        assert(all[i] == rest[i]);
        assert(all[i].covers(other));
    }
}

proof fn lemma_without_path(trusted: Seq<TrustedModel>, path: Seq<char>)
    ensures
        forall|i: int|
            0 <= i < without_path(trusted, path).len() ==> (#[trigger] without_path(
                trusted,
                path,
            )[i]).path != path && trusted.contains(without_path(trusted, path)[i]),
        forall|k: int|
            0 <= k < trusted.len() && (#[trigger] trusted[k]).path != path ==> without_path(
                trusted,
                path,
            ).contains(trusted[k]),
    decreases trusted.len(),
{
    if trusted.len() > 0 {
        let front = trusted.drop_last();
        lemma_without_path(front, path);
        let rest = without_path(front, path);
        let all = without_path(trusted, path);
        assert forall|i: int| 0 <= i < all.len() implies (#[trigger] all[i]).path != path
            && trusted.contains(all[i]) by {
            if i < rest.len() {
                assert(all[i] == rest[i]);
                let k = choose|k: int| 0 <= k < front.len() && front[k] == rest[i];
                assert(trusted[k] == all[i]);
            } else {
                assert(trusted[trusted.len() - 1] == all[i]);
            }
        }
        assert forall|k: int|
            0 <= k < trusted.len() && (#[trigger] trusted[k]).path != path implies all.contains(
            trusted[k],
        ) by {
            if k < front.len() {
                assert(front[k] == trusted[k]);
                let i = choose|i: int| 0 <= i < rest.len() && rest[i] == trusted[k];
                assert(all[i] == trusted[k]);
            } else {
                assert(all[rest.len() as int] == trusted[k]);
            }
        }
    }
}

} // verus!
