//! Application settings: keys and scopes, the choice of a model by scope, and when a change takes
//! effect.

use vstd::prelude::*;

use crate::document::{listing, DocumentKey, KeyRange, Table};
use crate::ids::{SessionId, WorkspaceId};
use crate::persistence::keys::{
    make_session_key, make_workspace_key, session_key, workspace_key,
};
use crate::text::{
    blank, byte_count, byte_len, has_trimmed_ends, is_blank, is_lower_or_digit, is_trimmed,
    lower_or_digit, to_chars,
};

verus! {

/// The longest name of a model.
pub const MAX_MODEL_ID_BYTES: usize = 256;

/// The longest revision.
pub const MAX_REVISION_BYTES: usize = 512;

/// How often a change is tried while the configuration changes under it.
pub const CONFIG_RETRY_LIMIT: usize = 4;

/// The time that a model call may take, in seconds, where none is chosen.
pub const DEFAULT_MODEL_TIMEOUT_SECONDS: u32 = 120;

/// The soft deadline of a new system configuration, in seconds.
pub const DEFAULT_SOFT_DEADLINE_SECONDS: u32 = 30;

/// The shutdown grace of a new system configuration, in seconds.
pub const DEFAULT_SHUTDOWN_GRACE_SECONDS: u32 = 5;

/// The key of the solver's model.
pub const MODEL_SOLVER: &'static str = "models.solver";

/// The key of the activity display.
pub const TUI_SHOW_PROGRESS: &'static str = "tui.display.show_progress";

/// The name of a setting.
#[derive(Debug, PartialEq, Eq, Hash)]
pub struct SettingKey {
    pub value: String,
}

/// A text that names no setting.
#[derive(Debug, PartialEq, Eq)]
pub struct SettingKeyError {
    pub value: String,
}

/// Whether a character can stand in a part of a setting's name.
pub open spec fn key_char(c: char) -> bool {
    is_lower_or_digit(c) || c == '_' || c == '-'
}

/// Whether a text names a setting: parts of lower-case letters, digits, underscores and hyphens
/// with single dots between them, at most 128 bytes in all.
pub open spec fn valid_key(key: Seq<char>) -> bool {
    &&& 1 <= key.len()
    &&& byte_count(key) <= 128
    &&& forall|i: int| 0 <= i < key.len() ==> key_char(#[trigger] key[i]) || key[i] == '.'
    &&& key[0] != '.'
    &&& key.last() != '.'
    &&& forall|i: int| 0 <= i < key.len() - 1 ==> !(#[trigger] key[i] == '.' && key[i + 1] == '.')
}

impl SettingKey {
    /// A name of a setting, refused unless it is valid.
    pub fn new(value: &str) -> (r: Result<SettingKey, SettingKeyError>)
        ensures
            match r {
                Ok(key) => valid_key(value@) && key.value@ == value@,
                Err(error) => !valid_key(value@) && error.value@ == value@,
            },
    {
        let chars = to_chars(value);
        let mut valid = chars.len() > 0 && byte_len(value) <= 128;
        let mut i: usize = 0;
        while i < chars.len() && valid
            invariant
                i <= chars@.len(),
                chars@ == value@,
                valid ==> chars@.len() > 0 && byte_count(value@) <= 128,
                valid ==> forall|j: int|
                    0 <= j < i ==> key_char(#[trigger] chars@[j]) || chars@[j] == '.',
                valid ==> forall|j: int|
                    0 <= j < i ==> (#[trigger] chars@[j] == '.' ==> j > 0 && j < chars@.len() - 1
                        && chars@[j - 1] != '.'),
                !valid ==> !valid_key(value@),
            decreases chars@.len() - i,
        {
            let c = chars[i];
            if c == '.' {
                if i == 0 || i == chars.len() - 1 || chars[i - 1] == '.' {
                    proof {
                        if i > 0 && i < chars@.len() - 1 {
                            assert(chars@[i - 1] == '.' && chars@[i as int] == '.');
                            assert(value@[i - 1] == '.' && value@[(i - 1) + 1] == '.');
                        }
                    }
                    valid = false;
                }
            } else if !lower_or_digit(c) && c != '_' && c != '-' {
                proof {
                    assert(!key_char(value@[i as int]) && value@[i as int] != '.');
                }
                valid = false;
            }
            i = i + 1;
        }
        if valid {
            proof {
                let key = value@;
                assert forall|j: int| 0 <= j < key.len() - 1 implies !(#[trigger] key[j] == '.'
                    && key[j + 1] == '.') by {
                    if key[j] == '.' && key[j + 1] == '.' {
                        assert(chars@[j + 1] == '.');
                    }
                }
                assert(chars@[0] == key[0]);
                assert(chars@[chars@.len() - 1] == key.last());
            }
            Ok(SettingKey { value: value.to_owned() })
        } else {
            Err(SettingKeyError { value: value.to_owned() })
        }
    }

    /// This name.
    pub fn as_str(&self) -> (r: &str)
        ensures
            r@ == self.value@,
    {
        self.value.as_str()
    }
}

/// The kinds of scopes.
#[derive(Clone, Copy, Debug, PartialEq, Eq, Structural)]
pub enum ScopeKind {
    User,
    Workspace,
    Session,
}

/// Where a value applies.
#[derive(Clone, Copy, Debug, PartialEq, Eq, PartialOrd, Ord, Hash, Structural)]
pub enum Scope {
    User,
    Workspace(WorkspaceId),
    Session(SessionId),
}

impl Scope {
    /// The kind of this scope.
    pub open spec fn kind_of(self) -> ScopeKind {
        match self {
            Scope::User => ScopeKind::User,
            Scope::Workspace(_) => ScopeKind::Workspace,
            Scope::Session(_) => ScopeKind::Session,
        }
    }

    /// The kind of this scope.
    pub fn kind(self) -> (r: ScopeKind)
        ensures
            r == self.kind_of(),
    {
        match self {
            Scope::User => ScopeKind::User,
            Scope::Workspace(_) => ScopeKind::Workspace,
            Scope::Session(_) => ScopeKind::Session,
        }
    }
}

/// Which scope supplied an effective value.
#[derive(Clone, Copy, Debug, PartialEq, Eq, Structural)]
pub enum SettingSource {
    BuiltIn,
    User,
    Workspace,
    Session,
}

/// When a valid value takes effect.
#[derive(Clone, Copy, Debug, PartialEq, Eq, Structural)]
pub enum ApplyBoundary {
    /// At once.
    Immediate,
    /// With the next turn of the user.
    NextUserTurn,
    /// Once its resources are prepared.
    PrepareAndSwap,
}

/// The scopes that a setting can be set in.
#[derive(Clone, Copy, Debug, PartialEq, Eq, Structural)]
pub struct AllowedScopes {
    pub user: bool,
    pub workspace: bool,
    pub session: bool,
}

impl AllowedScopes {
    /// Whether a kind of scope is allowed.
    pub open spec fn allows(self, kind: ScopeKind) -> bool {
        match kind {
            ScopeKind::User => self.user,
            ScopeKind::Workspace => self.workspace,
            ScopeKind::Session => self.session,
        }
    }

    /// Whether a kind of scope is allowed.
    pub fn contains(&self, kind: &ScopeKind) -> (r: bool)
        ensures
            r == self.allows(*kind),
    {
        match kind {
            ScopeKind::User => self.user,
            ScopeKind::Workspace => self.workspace,
            ScopeKind::Session => self.session,
        }
    }
}

/// What a settings view shows of a setting, and how it may be set.
#[derive(Clone, Copy, Debug, PartialEq, Eq)]
pub struct SettingDescriptor {
    pub key: &'static str,
    pub label: &'static str,
    pub allowed_scopes: AllowedScopes,
    pub default_scope: ScopeKind,
    pub apply_boundary: ApplyBoundary,
    pub model_visible: bool,
}

/// The settings that are shown: each with a validator and a consumer.
pub fn public_settings() -> (r: Vec<SettingDescriptor>)
    ensures
        r@.len() == 2,
        r@[0] == (SettingDescriptor {
            key: MODEL_SOLVER,
            label: "Solver model",
            allowed_scopes: AllowedScopes { user: true, workspace: true, session: true },
            default_scope: ScopeKind::Session,
            apply_boundary: ApplyBoundary::NextUserTurn,
            model_visible: false,
        }),
        r@[1] == (SettingDescriptor {
            key: TUI_SHOW_PROGRESS,
            label: "Show activity details",
            allowed_scopes: AllowedScopes { user: true, workspace: false, session: false },
            default_scope: ScopeKind::User,
            apply_boundary: ApplyBoundary::Immediate,
            model_visible: false,
        }),
        forall|i: int|
            0 <= i < r@.len() ==> (#[trigger] r@[i]).allowed_scopes.allows(r@[i].default_scope),
{
    let mut r: Vec<SettingDescriptor> = Vec::new();
    r.push(
        SettingDescriptor {
            key: MODEL_SOLVER,
            label: "Solver model",
            allowed_scopes: AllowedScopes { user: true, workspace: true, session: true },
            default_scope: ScopeKind::Session,
            apply_boundary: ApplyBoundary::NextUserTurn,
            model_visible: false,
        },
    );
    r.push(
        SettingDescriptor {
            key: TUI_SHOW_PROGRESS,
            label: "Show activity details",
            allowed_scopes: AllowedScopes { user: true, workspace: false, session: false },
            default_scope: ScopeKind::User,
            apply_boundary: ApplyBoundary::Immediate,
            model_visible: false,
        },
    );
    r
}

/// What the terminal shows.
#[derive(Clone, Copy, Debug, PartialEq, Eq, Structural)]
pub struct TuiDisplaySettings {
    /// Whether starts, ends and progress of work are shown.
    pub show_progress: bool,
}

impl Default for TuiDisplaySettings {
    fn default() -> (r: TuiDisplaySettings)
        ensures
            r.show_progress,
    {
        TuiDisplaySettings { show_progress: true }
    }
}

/// A revision of the effective configuration.
#[derive(Debug, PartialEq, Eq, Hash)]
pub struct EffectiveRevision {
    pub value: String,
}

impl Clone for EffectiveRevision {
    fn clone(&self) -> (r: EffectiveRevision)
        ensures
            r == *self,
    {
        EffectiveRevision { value: self.value.clone() }
    }
}

/// A text that is no revision: it is empty or too long.
#[derive(Clone, Copy, Debug, PartialEq, Eq, Structural)]
pub struct RevisionError;

impl EffectiveRevision {
    /// Whether a text is a revision.
    pub open spec fn valid(value: Seq<char>) -> bool {
        value.len() > 0 && byte_count(value) <= MAX_REVISION_BYTES
    }

    /// A revision, refused where it is empty or too long.
    pub fn new(value: &str) -> (r: Result<EffectiveRevision, RevisionError>)
        ensures
            match r {
                Ok(revision) => EffectiveRevision::valid(value@) && revision.value@ == value@,
                Err(_) => !EffectiveRevision::valid(value@),
            },
    {
        let chars = to_chars(value);
        if chars.len() == 0 || byte_len(value) > MAX_REVISION_BYTES {
            return Err(RevisionError);
        }
        Ok(EffectiveRevision { value: value.to_owned() })
    }

    /// This revision.
    pub fn as_str(&self) -> (r: &str)
        ensures
            r@ == self.value@,
    {
        self.value.as_str()
    }
}

/// How hard a model thinks.
#[derive(Clone, Copy, Debug, PartialEq, Eq, Structural)]
pub enum Effort {
    Low,
    Medium,
    High,
}

/// The choice of a solver.
#[derive(Debug, PartialEq, Eq)]
pub struct ModelSelection {
    pub model: String,
    pub effort: Option<Effort>,
    pub timeout_seconds: Option<u32>,
}

impl Clone for ModelSelection {
    fn clone(&self) -> (r: ModelSelection)
        ensures
            r == *self,
    {
        ModelSelection {
            model: self.model.clone(),
            effort: self.effort,
            timeout_seconds: self.timeout_seconds,
        }
    }
}

/// Why a choice of a solver is refused.
#[derive(Clone, Copy, Debug, PartialEq, Eq, Structural)]
pub enum ModelSelectionError {
    InvalidModel,
    ZeroTimeout,
}

impl ModelSelectionError {
    /// What this error says.
    pub open spec fn text(self) -> Seq<char> {
        match self {
            ModelSelectionError::InvalidModel =>
                "model identifier must be trimmed, non-empty, and at most 256 bytes"@,
            ModelSelectionError::ZeroTimeout =>
                "model timeout must be greater than zero when configured"@,
        }
    }

    /// What this error says.
    pub fn message(self) -> (r: String)
        ensures
            r@ == self.text(),
    {
        match self {
            ModelSelectionError::InvalidModel =>
                "model identifier must be trimmed, non-empty, and at most 256 bytes".to_owned(),
            ModelSelectionError::ZeroTimeout =>
                "model timeout must be greater than zero when configured".to_owned(),
        }
    }
}

/// What is wrong with a choice of a solver.
pub open spec fn selection_problem(model: Seq<char>, timeout_seconds: Option<u32>) -> Option<
    ModelSelectionError,
> {
    if is_blank(model) || !is_trimmed(model) || byte_count(model) > MAX_MODEL_ID_BYTES {
        Some(ModelSelectionError::InvalidModel)
    } else if timeout_seconds == Some(0u32) {
        Some(ModelSelectionError::ZeroTimeout)
    } else {
        None
    }
}

impl ModelSelection {
    /// A choice of a solver, refused unless it is valid.
    pub fn new(model: String, effort: Option<Effort>, timeout_seconds: Option<u32>) -> (r: Result<
        ModelSelection,
        ModelSelectionError,
    >)
        ensures
            r == (match selection_problem(model@, timeout_seconds) {
                Some(error) => Err::<ModelSelection, ModelSelectionError>(error),
                None => Ok(ModelSelection { model, effort, timeout_seconds }),
            }),
    {
        let text = model.as_str();
        if blank(text) || !has_trimmed_ends(text) || byte_len(text) > MAX_MODEL_ID_BYTES {
            return Err(ModelSelectionError::InvalidModel);
        }
        let zero = match timeout_seconds {
            Some(seconds) => seconds == 0,
            None => false,
        };
        if zero {
            return Err(ModelSelectionError::ZeroTimeout);
        }
        Ok(ModelSelection { model, effort, timeout_seconds })
    }
}

/// A model with the scope that supplied it.
#[derive(Debug, PartialEq, Eq)]
pub struct ResolvedModel {
    pub selection: ModelSelection,
    pub source: SettingSource,
}

/// The models that are chosen by scope.
pub struct ModelOverrides {
    pub user: Option<ModelSelection>,
    pub workspaces: Table<ModelSelection>,
    pub sessions: Table<ModelSelection>,
}

/// The models that are chosen by scope, by their values.
#[verifier::ext_equal]
pub ghost struct ModelOverridesView {
    pub user: Option<ModelSelection>,
    pub workspaces: Map<DocumentKey, ModelSelection>,
    pub sessions: Map<DocumentKey, ModelSelection>,
}

impl View for ModelOverrides {
    type V = ModelOverridesView;

    open spec fn view(&self) -> ModelOverridesView {
        ModelOverridesView {
            user: self.user,
            workspaces: self.workspaces@,
            sessions: self.sessions@,
        }
    }
}

impl ModelOverridesView {
    /// The overrides with a model chosen in a scope.
    pub open spec fn with(self, scope: Scope, selection: ModelSelection) -> ModelOverridesView {
        match scope {
            Scope::User => ModelOverridesView { user: Some(selection), ..self },
            Scope::Workspace(id) => ModelOverridesView {
                workspaces: self.workspaces.insert(workspace_key(id), selection),
                ..self
            },
            Scope::Session(id) => ModelOverridesView {
                sessions: self.sessions.insert(session_key(id), selection),
                ..self
            },
        }
    }

    /// The overrides without the choice of a session.
    pub open spec fn inherited(self, session: SessionId) -> ModelOverridesView {
        ModelOverridesView { sessions: self.sessions.remove(session_key(session)), ..self }
    }

    /// The model that applies: the session's, else the workspace's, else the user's, else the
    /// built-in one.
    pub open spec fn resolved(
        self,
        workspace: WorkspaceId,
        session: SessionId,
        built_in: ModelSelection,
    ) -> ResolvedModel {
        if self.sessions.dom().contains(session_key(session)) {
            ResolvedModel {
                selection: self.sessions[session_key(session)],
                source: SettingSource::Session,
            }
        } else if self.workspaces.dom().contains(workspace_key(workspace)) {
            ResolvedModel {
                selection: self.workspaces[workspace_key(workspace)],
                source: SettingSource::Workspace,
            }
        } else {
            match self.user {
                Some(selection) => ResolvedModel { selection, source: SettingSource::User },
                None => ResolvedModel { selection: built_in, source: SettingSource::BuiltIn },
            }
        }
    }

    /// The first problem of the choices: the user's comes first, then the workspaces', then the
    /// sessions'.
    pub open spec fn problem(self) -> Option<ModelSelectionError> {
        let user = match self.user {
            Some(selection) => selection_problem(selection.model@, selection.timeout_seconds),
            None => None,
        };
        if user is Some {
            user
        } else if table_problem(self.workspaces) is Some {
            table_problem(self.workspaces)
        } else {
            table_problem(self.sessions)
        }
    }
}

fn check_selection(selection: &ModelSelection) -> (r: Option<ModelSelectionError>)
    ensures
        r == selection_problem(selection.model@, selection.timeout_seconds),
{
    match ModelSelection::new(
        selection.model.clone(),
        selection.effort,
        selection.timeout_seconds,
    ) {
        Ok(_) => None,
        Err(error) => Some(error),
    }
}

/// The first problem of the choices under keys, from `index` on.
pub open spec fn problem_from(
    keys: Seq<DocumentKey>,
    choices: Map<DocumentKey, ModelSelection>,
    index: int,
) -> Option<ModelSelectionError>
    decreases keys.len() - index,
{
    if index >= keys.len() {
        None
    } else {
        let choice = choices[keys[index]];
        match selection_problem(choice.model@, choice.timeout_seconds) {
            Some(error) => Some(error),
            None => problem_from(keys, choices, index + 1),
        }
    }
}

/// The first problem of choices, by ascending keys.
pub open spec fn table_problem(choices: Map<DocumentKey, ModelSelection>) -> Option<
    ModelSelectionError,
> {
    problem_from(
        listing(choices.dom(), KeyRange { owner: None, item: None, before: None }),
        choices,
        0,
    )
}

fn check_table(table: &Table<ModelSelection>) -> (r: Option<ModelSelectionError>)
    ensures
        r == table_problem(table@),
{
    let keys = table.select(&KeyRange { owner: None, item: None, before: None });
    let mut i: usize = 0;
    while i < keys.len()
        invariant
            i <= keys@.len(),
            forall|j: int| #![trigger keys@[j]]
                0 <= j < keys@.len() ==> table@.dom().contains(keys@[j]),
            keys@ == listing(
                table@.dom(),
                KeyRange { owner: None, item: None, before: None },
            ),
            table_problem(table@) == problem_from(keys@, table@, i as int),
        decreases keys@.len() - i,
    {
        proof {
            assert(table@.dom().contains(keys@[i as int]));
        }
        match check_selection(table.get(&keys[i]).unwrap()) {
            Some(error) => {
                return Some(error);
            },
            None => {},
        }
        i = i + 1;
    }
    None
}

impl Default for ModelOverrides {
    fn default() -> (r: ModelOverrides)
        ensures
            r@ == (ModelOverridesView {
                user: None,
                workspaces: Map::empty(),
                sessions: Map::empty(),
            }),
    {
        ModelOverrides { user: None, workspaces: Table::new(), sessions: Table::new() }
    }
}

impl ModelOverrides {
    /// Checks every choice; the user's comes first, then the workspaces', then the sessions'.
    pub fn validate(&self) -> (r: Result<(), ModelSelectionError>)
        ensures
            r == (match self@.problem() {
                Some(error) => Err::<(), ModelSelectionError>(error),
                None => Ok(()),
            }),
    {
        match &self.user {
            Some(selection) => match check_selection(selection) {
                Some(error) => {
                    return Err(error);
                },
                None => {},
            },
            None => {},
        }
        match check_table(&self.workspaces) {
            Some(error) => {
                return Err(error);
            },
            None => {},
        }
        match check_table(&self.sessions) {
            Some(error) => Err(error),
            None => Ok(()),
        }
    }

    /// Chooses a model in a scope.
    pub fn set(&mut self, scope: Scope, selection: ModelSelection)
        ensures
            final(self)@ == old(self)@.with(scope, selection),
    {
        match scope {
            Scope::User => {
                self.user = Some(selection);
            },
            Scope::Workspace(id) => {
                self.workspaces.put(make_workspace_key(id), selection);
            },
            Scope::Session(id) => {
                self.sessions.put(make_session_key(id), selection);
            },
        }
        proof {
            assert(self@ =~= old(self)@.with(scope, selection));
        }
    }

    /// Takes the choice of a session back, so that it inherits. Returns whether there was one.
    pub fn inherit_session(&mut self, session: SessionId) -> (r: bool)
        ensures
            final(self)@ == old(self)@.inherited(session),
            r == old(self)@.sessions.dom().contains(session_key(session)),
    {
        let r = self.sessions.take(&make_session_key(session)).is_some();
        proof {
            assert(self@ =~= old(self)@.inherited(session));
        }
        r
    }

    /// The model that applies to a session.
    pub fn resolve(&self, workspace: WorkspaceId, session: SessionId, built_in: &ModelSelection) -> (r: ResolvedModel)
        ensures
            r == self@.resolved(workspace, session, *built_in),
    {
        match self.sessions.get(&make_session_key(session)) {
            Some(selection) => {
                return ResolvedModel {
                    selection: selection.clone(),
                    source: SettingSource::Session,
                };
            },
            None => {},
        }
        match self.workspaces.get(&make_workspace_key(workspace)) {
            Some(selection) => {
                return ResolvedModel {
                    selection: selection.clone(),
                    source: SettingSource::Workspace,
                };
            },
            None => {},
        }
        match &self.user {
            Some(selection) => ResolvedModel {
                selection: selection.clone(),
                source: SettingSource::User,
            },
            None => ResolvedModel { selection: built_in.clone(), source: SettingSource::BuiltIn },
        }
    }
}

/// The configuration that a turn is fixed to.
#[derive(Debug, PartialEq, Eq)]
pub struct TurnConfig {
    pub effective_revision: EffectiveRevision,
    pub solver: ModelSelection,
    pub coordinator: ModelSelection,
    pub agent_protocol_version: u32,
    pub tool_schema_version: u32,
}

/// A turn configuration with a version zero.
#[derive(Clone, Copy, Debug, PartialEq, Eq, Structural)]
pub struct TurnConfigError;

impl TurnConfig {
    /// The configuration of a turn, refused where a version is zero.
    pub fn new(
        effective_revision: EffectiveRevision,
        solver: ModelSelection,
        coordinator: ModelSelection,
        agent_protocol_version: u32,
        tool_schema_version: u32,
    ) -> (r: Result<TurnConfig, TurnConfigError>)
        ensures
            r == (if agent_protocol_version == 0 || tool_schema_version == 0 {
                Err::<TurnConfig, TurnConfigError>(TurnConfigError)
            } else {
                Ok(
                    TurnConfig {
                        effective_revision,
                        solver,
                        coordinator,
                        agent_protocol_version,
                        tool_schema_version,
                    },
                )
            }),
    {
        if agent_protocol_version == 0 || tool_schema_version == 0 {
            return Err(TurnConfigError);
        }
        Ok(
            TurnConfig {
                effective_revision,
                solver,
                coordinator,
                agent_protocol_version,
                tool_schema_version,
            },
        )
    }
}

/// How far a change has come.
#[derive(Debug, PartialEq, Eq)]
pub enum ApplyState {
    Validating,
    Preparing,
    Applied { effective_revision: EffectiveRevision },
    PendingNextTurn {
        desired_revision: EffectiveRevision,
        current_turn_revision: EffectiveRevision,
    },
    FailedUsingLastKnownGood {
        desired_revision: Option<EffectiveRevision>,
        last_known_good_revision: EffectiveRevision,
        reason: String,
    },
}

/// Whether this says when a choice of a model applies.
pub open spec fn applies_when(
    desired_revision: EffectiveRevision,
    active_turn: Option<&TurnConfig>,
    r: ApplyState,
) -> bool {
    r == (match active_turn {
        Some(turn) => ApplyState::PendingNextTurn {
            desired_revision,
            current_turn_revision: turn.effective_revision,
        },
        None => ApplyState::Applied { effective_revision: desired_revision },
    })
}

/// How far a saved change of the model has come: a running turn keeps its own until it ends.
pub fn model_apply_state(desired_revision: EffectiveRevision, active_turn: Option<&TurnConfig>) -> (r: ApplyState)
    ensures
        applies_when(desired_revision, active_turn, r),
{
    match active_turn {
        Some(turn) => ApplyState::PendingNextTurn {
            desired_revision,
            current_turn_revision: turn.effective_revision.clone(),
        },
        None => ApplyState::Applied { effective_revision: desired_revision },
    }
}

/// The model that applies to a session, where there is one.
#[derive(Debug, PartialEq, Eq)]
pub enum ModelResolution {
    /// Nothing is chosen yet.
    NeedsModel { effective_revision: EffectiveRevision },
    Ready { resolved: ResolvedModel, effective_revision: EffectiveRevision },
}

/// What the agent is started with.
#[derive(Debug, PartialEq, Eq)]
pub struct TaskConfig {
    pub model: Option<String>,
    pub effort: Option<Effort>,
    pub timeout_seconds: Option<u32>,
}

/// Whether this is the configuration of a task.
pub open spec fn configures_task(
    resolution: ModelResolution,
    r: Option<TaskConfig>,
) -> bool {
    r == (match resolution {
        ModelResolution::NeedsModel { .. } => None,
        ModelResolution::Ready { resolved, .. } => Some(
            TaskConfig {
                model: Some(resolved.selection.model),
                effort: resolved.selection.effort,
                timeout_seconds: resolved.selection.timeout_seconds,
            },
        ),
    })
}

impl ModelResolution {
    /// The revision of this resolution.
    pub fn effective_revision(&self) -> (r: &EffectiveRevision)
        ensures
            *r == (match *self {
                ModelResolution::NeedsModel { effective_revision } => effective_revision,
                ModelResolution::Ready { effective_revision, .. } => effective_revision,
            }),
    {
        match self {
            ModelResolution::NeedsModel { effective_revision } => effective_revision,
            ModelResolution::Ready { effective_revision, .. } => effective_revision,
        }
    }

    /// What the agent is started with, where a model applies.
    pub fn task_config(&self) -> (r: Option<TaskConfig>)
        ensures
            configures_task(*self, r),
    {
        match self {
            ModelResolution::NeedsModel { .. } => None,
            ModelResolution::Ready { resolved, .. } => Some(
                TaskConfig {
                    model: Some(resolved.selection.model.clone()),
                    effort: resolved.selection.effort,
                    timeout_seconds: resolved.selection.timeout_seconds,
                },
            ),
        }
    }
}

/// A model as the agent's own configuration holds it.
#[derive(Debug, PartialEq, Eq)]
pub struct ModelSettings {
    pub model: String,
    pub effort: Option<Effort>,
    pub timeout_seconds: u32,
}

impl Clone for ModelSettings {
    fn clone(&self) -> (r: ModelSettings)
        ensures
            r == *self,
    {
        ModelSettings {
            model: self.model.clone(),
            effort: self.effort,
            timeout_seconds: self.timeout_seconds,
        }
    }
}

/// The agent's own configuration.
#[derive(Debug, PartialEq, Eq)]
pub struct SystemConfig {
    pub coordinator: ModelSettings,
    pub default_solver: ModelSettings,
    pub soft_deadline_seconds: u32,
    pub shutdown_grace_seconds: u32,
}

impl Clone for SystemConfig {
    fn clone(&self) -> (r: SystemConfig)
        ensures
            r == *self,
    {
        SystemConfig {
            coordinator: self.coordinator.clone(),
            default_solver: self.default_solver.clone(),
            soft_deadline_seconds: self.soft_deadline_seconds,
            shutdown_grace_seconds: self.shutdown_grace_seconds,
        }
    }
}

/// Why a settings operation failed.
#[derive(Debug, PartialEq, Eq)]
pub enum SettingsError {
    /// The saved settings could not be read or decoded.
    Config { message: String },
    Model(ModelSelectionError),
    Revision(RevisionError),
    /// The configuration changed repeatedly while a setting was applied.
    Contention,
    /// The agent's configuration was still missing after a model was saved.
    MissingSystemAfterWrite,
    /// The scope belongs to another workspace or session.
    ScopeTargetMismatch { scope: Scope },
    /// A value that must be positive is not.
    NonPositive { field: &'static str },
}

/// A choice in the agent's terms.
pub open spec fn agent_settings(selection: ModelSelection) -> ModelSettings {
    ModelSettings {
        model: selection.model,
        effort: selection.effort,
        timeout_seconds: match selection.timeout_seconds {
            Some(seconds) => seconds,
            None => DEFAULT_MODEL_TIMEOUT_SECONDS,
        },
    }
}

/// A choice in the agent's terms.
pub fn agent_model_settings(selection: &ModelSelection) -> (r: ModelSettings)
    ensures
        r == agent_settings(*selection),
{
    ModelSettings {
        model: selection.model.clone(),
        effort: selection.effort,
        timeout_seconds: match selection.timeout_seconds {
            Some(seconds) => seconds,
            None => DEFAULT_MODEL_TIMEOUT_SECONDS,
        },
    }
}

/// The agent's first configuration: one model for both roles.
pub open spec fn first_system(selection: ModelSelection) -> SystemConfig {
    SystemConfig {
        coordinator: agent_settings(selection),
        default_solver: agent_settings(selection),
        soft_deadline_seconds: DEFAULT_SOFT_DEADLINE_SECONDS,
        shutdown_grace_seconds: DEFAULT_SHUTDOWN_GRACE_SECONDS,
    }
}

/// The agent's first configuration.
pub fn first_system_config(selection: &ModelSelection) -> (r: SystemConfig)
    ensures
        r == first_system(*selection),
{
    let model = agent_model_settings(selection);
    SystemConfig {
        coordinator: model.clone(),
        default_solver: model,
        soft_deadline_seconds: DEFAULT_SOFT_DEADLINE_SECONDS,
        shutdown_grace_seconds: DEFAULT_SHUTDOWN_GRACE_SECONDS,
    }
}

/// Whether a scope belongs to a workspace and a session.
pub open spec fn scope_fits(scope: Scope, workspace: WorkspaceId, session: SessionId) -> bool {
    match scope {
        Scope::User => true,
        Scope::Workspace(id) => id == workspace,
        Scope::Session(id) => id == session,
    }
}

/// Checks that a scope belongs to a workspace and a session.
pub fn validate_scope_target(scope: Scope, workspace: WorkspaceId, session: SessionId) -> (r: Result<
    (),
    SettingsError,
>)
    ensures
        r == (if scope_fits(scope, workspace, session) {
            Ok::<(), SettingsError>(())
        } else {
            Err(SettingsError::ScopeTargetMismatch { scope })
        }),
{
    let fits = match scope {
        Scope::User => true,
        Scope::Workspace(id) => id == workspace,
        Scope::Session(id) => id == session,
    };
    if fits {
        Ok(())
    } else {
        Err(SettingsError::ScopeTargetMismatch { scope })
    }
}

/// The settings as they are saved, section by section.
pub struct SettingsDocument {
    pub system: Option<SystemConfig>,
    pub overrides: ModelOverrides,
    pub display: TuiDisplaySettings,
}

/// The settings by their values.
#[verifier::ext_equal]
pub ghost struct SettingsView {
    pub system: Option<SystemConfig>,
    pub overrides: ModelOverridesView,
    pub display: TuiDisplaySettings,
}

impl View for SettingsDocument {
    type V = SettingsView;

    open spec fn view(&self) -> SettingsView {
        SettingsView {
            system: self.system,
            overrides: self.overrides@,
            display: self.display,
        }
    }
}

/// The model that applies to a session in saved settings.
pub open spec fn resolution(
    settings: SettingsView,
    revision: EffectiveRevision,
    workspace: WorkspaceId,
    session: SessionId,
) -> Result<ModelResolution, SettingsError> {
    match settings.system {
        None => Ok(ModelResolution::NeedsModel { effective_revision: revision }),
        Some(system) => {
            let solver = system.default_solver;
            match selection_problem(solver.model@, Some(solver.timeout_seconds)) {
                Some(error) => Err(SettingsError::Model(error)),
                None => Ok(
                    ModelResolution::Ready {
                        resolved: settings.overrides.resolved(
                            workspace,
                            session,
                            ModelSelection {
                                model: solver.model,
                                effort: solver.effort,
                                timeout_seconds: Some(solver.timeout_seconds),
                            },
                        ),
                        effective_revision: revision,
                    },
                ),
            }
        },
    }
}

/// What has to be written next to choose a model.
pub enum ModelWrite {
    /// The agent's own configuration has to come first.
    System(SystemConfig),
    Overrides(ModelSelection),
}

/// What has to be written next to choose a model: the agent's own configuration where it is
/// missing, or where the user's choice differs from its solver; else the choice itself.
pub open spec fn next_write(settings: SettingsView, scope: Scope, selection: ModelSelection) -> ModelWrite {
    match settings.system {
        None => ModelWrite::System(first_system(selection)),
        Some(system) => if scope == Scope::User && !same_settings(
            system.default_solver,
            agent_settings(selection),
        ) {
            ModelWrite::System(
                SystemConfig { default_solver: agent_settings(selection), ..system },
            )
        } else {
            ModelWrite::Overrides(selection)
        },
    }
}

/// Whether two models of the agent are the same.
pub open spec fn same_settings(a: ModelSettings, b: ModelSettings) -> bool {
    a.model@ == b.model@ && a.effort == b.effort && a.timeout_seconds == b.timeout_seconds
}

fn equal_settings(a: &ModelSettings, b: &ModelSettings) -> (r: bool)
    ensures
        r == same_settings(*a, *b),
{
    let same_effort = match (a.effort, b.effort) {
        (Some(x), Some(y)) => x == y,
        (None, None) => true,
        _ => false,
    };
    crate::text::same_text(a.model.as_str(), b.model.as_str()) && same_effort && a.timeout_seconds
        == b.timeout_seconds
}

/// Whether this is how a choice of a model is to be saved.
pub open spec fn plans_model(
    settings: SettingsView,
    workspace: WorkspaceId,
    session: SessionId,
    scope: Scope,
    selection: ModelSelection,
    r: Result<ModelWrite, SettingsError>,
) -> bool {
    r == (match selection_problem(selection.model@, selection.timeout_seconds) {
        Some(error) => Err::<ModelWrite, SettingsError>(SettingsError::Model(error)),
        None => if !scope_fits(scope, workspace, session) {
            Err(SettingsError::ScopeTargetMismatch { scope })
        } else {
            Ok(next_write(settings, scope, selection))
        },
    })
}

/// Whether choosing a model gives these settings and this answer.
pub open spec fn sets_model(
    before: SettingsView,
    workspace: WorkspaceId,
    session: SessionId,
    scope: Scope,
    selection: ModelSelection,
    revision: EffectiveRevision,
    after: SettingsView,
    r: Result<ModelChange, SettingsError>,
) -> bool {
    match selection_problem(selection.model@, selection.timeout_seconds) {
        Some(error) => {
            &&& after == before
            &&& r == Err::<ModelChange, SettingsError>(SettingsError::Model(error))
        },
        None => if !scope_fits(scope, workspace, session) {
            &&& after == before
            &&& r == Err::<ModelChange, SettingsError>(
                SettingsError::ScopeTargetMismatch { scope },
            )
        } else {
            &&& after == chosen(before, scope, selection)
            &&& r == (match resolution(after, revision, workspace, session) {
                Ok(ModelResolution::Ready { resolved, effective_revision }) => Ok(
                    ModelChange { scope, resolved, desired_revision: effective_revision },
                ),
                Ok(ModelResolution::NeedsModel { .. }) => Err(
                    SettingsError::MissingSystemAfterWrite,
                ),
                Err(error) => Err(error),
            })
        },
    }
}

/// Whether giving up the model of a session gives these settings and this answer.
pub open spec fn inherits_model(
    before: SettingsView,
    workspace: WorkspaceId,
    session: SessionId,
    revision: EffectiveRevision,
    after: SettingsView,
    r: (bool, Result<ModelResolution, SettingsError>),
) -> bool {
    &&& after == (SettingsView {
        overrides: before.overrides.inherited(session),
        ..before
    })
    &&& r.0 == before.overrides.sessions.dom().contains(session_key(session))
    &&& r.1 == resolution(after, revision, workspace, session)
}

/// Whether choosing what is displayed gives these settings and this answer.
pub open spec fn sets_display(
    before: SettingsView,
    show_progress: bool,
    revision: EffectiveRevision,
    after: SettingsView,
    r: EffectiveRevision,
) -> bool {
    &&& r == revision
    &&& after == (SettingsView {
        display: TuiDisplaySettings { show_progress },
        ..before
    })
}

impl SettingsDocument {
    /// The settings before anything is saved: no model is guessed.
    pub fn initial() -> (r: SettingsDocument)
        ensures
            r@.system is None,
            r@.overrides == (ModelOverridesView {
                user: None,
                workspaces: Map::empty(),
                sessions: Map::empty(),
            }),
            r@.display.show_progress,
    {
        SettingsDocument {
            system: None,
            overrides: ModelOverrides::default(),
            display: TuiDisplaySettings::default(),
        }
    }

    /// The model that applies to a session.
    pub fn resolve_model(
        &self,
        revision: &EffectiveRevision,
        workspace: WorkspaceId,
        session: SessionId,
    ) -> (r: Result<ModelResolution, SettingsError>)
        ensures
            r == resolution(self@, *revision, workspace, session),
    {
        match &self.system {
            None => Ok(ModelResolution::NeedsModel { effective_revision: revision.clone() }),
            Some(system) => {
                match ModelSelection::new(
                    system.default_solver.model.clone(),
                    system.default_solver.effort,
                    Some(system.default_solver.timeout_seconds),
                ) {
                    Ok(fallback) => Ok(
                        ModelResolution::Ready {
                            resolved: self.overrides.resolve(workspace, session, &fallback),
                            effective_revision: revision.clone(),
                        },
                    ),
                    Err(error) => Err(SettingsError::Model(error)),
                }
            },
        }
    }

    /// What has to be written next to choose a model in a scope.
    pub fn plan_solver_model(
        &self,
        workspace: WorkspaceId,
        session: SessionId,
        scope: Scope,
        selection: &ModelSelection,
    ) -> (r: Result<ModelWrite, SettingsError>)
        ensures
            plans_model(self@, workspace, session, scope, *selection, r),
    {
        match check_selection(selection) {
            Some(error) => {
                return Err(SettingsError::Model(error));
            },
            None => {},
        }
        match validate_scope_target(scope, workspace, session) {
            Ok(_) => {},
            Err(error) => {
                return Err(error);
            },
        }
        match &self.system {
            None => Ok(ModelWrite::System(first_system_config(selection))),
            Some(system) => {
                let user = match scope {
                    Scope::User => true,
                    _ => false,
                };
                let solver = agent_model_settings(selection);
                if user && !equal_settings(&system.default_solver, &solver) {
                    let mut next = system.clone();
                    next.default_solver = solver;
                    Ok(ModelWrite::System(next))
                } else {
                    Ok(ModelWrite::Overrides(selection.clone()))
                }
            },
        }
    }

    /// Saves the agent's own configuration.
    pub fn save_system(&mut self, system: SystemConfig)
        ensures
            final(self)@ == (SettingsView { system: Some(system), ..old(self)@ }),
    {
        self.system = Some(system);
    }

    /// Saves the choice of a model in a scope.
    pub fn save_override(&mut self, scope: Scope, selection: ModelSelection)
        ensures
            final(self)@ == (SettingsView {
                overrides: old(self)@.overrides.with(scope, selection),
                ..old(self)@
            }),
    {
        self.overrides.set(scope, selection);
    }

    /// Chooses a model in a scope, with everything that has to be written for it, and says which
    /// model then applies. `revision` is that of the settings once they are saved.
    pub fn set_solver_model(
        &mut self,
        workspace: WorkspaceId,
        session: SessionId,
        scope: Scope,
        selection: ModelSelection,
        revision: EffectiveRevision,
    ) -> (r: Result<ModelChange, SettingsError>)
        ensures
            sets_model(old(self)@, workspace, session, scope, selection, revision, final(self)@, r),
    {
        match self.plan_solver_model(workspace, session, scope, &selection) {
            Ok(ModelWrite::System(system)) => {
                self.save_system(system);
            },
            Ok(ModelWrite::Overrides(_)) => {},
            Err(error) => {
                return Err(error);
            },
        }
        self.save_override(scope, selection);
        match self.resolve_model(&revision, workspace, session) {
            Ok(ModelResolution::Ready { resolved, effective_revision }) => Ok(
                ModelChange { scope, resolved, desired_revision: effective_revision },
            ),
            Ok(ModelResolution::NeedsModel { .. }) => Err(SettingsError::MissingSystemAfterWrite),
            Err(error) => Err(error),
        }
    }

    /// Takes the choice of a session back, and says which model then applies. The settings are to be
    /// saved only where there was a choice. `revision` is that of the settings afterwards.
    pub fn inherit_session_model(
        &mut self,
        workspace: WorkspaceId,
        session: SessionId,
        revision: &EffectiveRevision,
    ) -> (r: (bool, Result<ModelResolution, SettingsError>))
        ensures
            inherits_model(old(self)@, workspace, session, *revision, final(self)@, r),
    {
        let removed = self.overrides.inherit_session(session);
        (removed, self.resolve_model(revision, workspace, session))
    }

    /// Chooses whether progress is shown, and gives the revision that has the choice. `revision` is
    /// that of the settings once they are saved.
    pub fn set_show_progress(&mut self, show_progress: bool, revision: EffectiveRevision) -> (r:
        EffectiveRevision)
        ensures
            sets_display(old(self)@, show_progress, revision, final(self)@, r),
    {
        self.display.show_progress = show_progress;
        revision
    }
}

/// A choice of a model that was saved: the model that applies since then, and the revision of the
/// settings that has it.
#[derive(Debug, PartialEq, Eq)]
pub struct ModelChange {
    pub scope: Scope,
    pub resolved: ResolvedModel,
    pub desired_revision: EffectiveRevision,
}

/// The settings with a model chosen in a scope.
pub open spec fn chosen(settings: SettingsView, scope: Scope, selection: ModelSelection) -> SettingsView {
    SettingsView {
        system: match next_write(settings, scope, selection) {
            ModelWrite::System(system) => Some(system),
            ModelWrite::Overrides(_) => settings.system,
        },
        overrides: settings.overrides.with(scope, selection),
        ..settings
    }
}

/// What a change does after one try of a write.
#[derive(Clone, Copy, Debug, PartialEq, Eq, Structural)]
pub enum RetryStep {
    Again,
    Done,
    Contention,
}

/// A change that is tried until its last write succeeds, a few times at most.
#[derive(Clone, Copy, Debug, PartialEq, Eq, Structural)]
pub struct Retry {
    pub attempts: usize,
}

/// Whether this is what comes after an attempt to write.
pub open spec fn goes_on(
    before: Retry,
    written: bool,
    last: bool,
    after: Retry,
    r: RetryStep,
) -> bool {
    &&& after.attempts == before.attempts + 1
    &&& r == (if written && last {
        RetryStep::Done
    } else if after.attempts < CONFIG_RETRY_LIMIT {
        RetryStep::Again
    } else {
        RetryStep::Contention
    })
}

impl Retry {
    /// A change that was not tried yet.
    pub fn start() -> (r: Retry)
        ensures
            r.attempts == 0,
    {
        Retry { attempts: 0 }
    }

    /// What comes after one try: done where the last write succeeded, else another try while there
    /// are any left.
    pub fn after_try(&mut self, written: bool, last: bool) -> (r: RetryStep)
        requires
            old(self).attempts < CONFIG_RETRY_LIMIT,
        ensures
            goes_on(*old(self), written, last, *final(self), r),
    {
        self.attempts = self.attempts + 1;
        if written && last {
            RetryStep::Done
        } else if self.attempts < CONFIG_RETRY_LIMIT {
            RetryStep::Again
        } else {
            RetryStep::Contention
        }
    }
}

/// A session's choice wins over its workspace's, that over the user's, and that over the built-in
/// model.
pub proof fn law_nearest_scope_wins(
    overrides: ModelOverridesView,
    workspace: WorkspaceId,
    session: SessionId,
    built_in: ModelSelection,
    selection: ModelSelection,
)
    ensures
        overrides.with(Scope::Session(session), selection).resolved(workspace, session, built_in)
            == (ResolvedModel { selection, source: SettingSource::Session }),
        !overrides.sessions.dom().contains(session_key(session)) ==> overrides.with(
            Scope::Workspace(workspace),
            selection,
        ).resolved(workspace, session, built_in) == (ResolvedModel {
            selection,
            source: SettingSource::Workspace,
        }),
        !overrides.sessions.dom().contains(session_key(session))
            && !overrides.workspaces.dom().contains(workspace_key(workspace)) ==> overrides.with(
            Scope::User,
            selection,
        ).resolved(workspace, session, built_in) == (ResolvedModel {
            selection,
            source: SettingSource::User,
        }),
{
}

/// Inheriting removes the choice of that session alone: every other session resolves as before,
/// and the session itself as if it had never chosen.
pub proof fn law_inherit_is_local(
    overrides: ModelOverridesView,
    workspace: WorkspaceId,
    session: SessionId,
    other: SessionId,
    selection: ModelSelection,
    built_in: ModelSelection,
)
    requires
        !overrides.sessions.dom().contains(session_key(session)),
    ensures
        overrides.with(Scope::Session(session), selection).inherited(session) == overrides,
        other != session ==> overrides.inherited(session).resolved(workspace, other, built_in)
            == overrides.resolved(workspace, other, built_in),
{
    assert(overrides.with(Scope::Session(session), selection).inherited(session) =~= overrides);
}

/// After a model was chosen, a model applies to the session.
pub proof fn law_chosen_model_is_ready(
    settings: SettingsView,
    scope: Scope,
    selection: ModelSelection,
    revision: EffectiveRevision,
    workspace: WorkspaceId,
    session: SessionId,
)
    requires
        selection_problem(selection.model@, selection.timeout_seconds) is None,
        settings.system matches Some(system) ==> selection_problem(
            system.default_solver.model@,
            Some(system.default_solver.timeout_seconds),
        ) is None,
    ensures
        ({
            let after = chosen(settings, scope, selection);
            resolution(after, revision, workspace, session) matches Ok(
                ModelResolution::Ready { .. },
            )
        }),
{
}

} // verus!
