//! Surfaces (leader, worker and HUD panes) that a launch runtime addresses, and the
//! backends that name them.
use vstd::prelude::*;
use crate::text::has_prefix;

verus! {

/// The name of one surface, such as `native:<session>:leader`.
#[derive(Debug, Clone, PartialEq, Eq)]
pub struct SurfaceId(String);

impl View for SurfaceId {
    type V = Seq<char>;

    closed spec fn view(&self) -> Seq<char> {
        self.0@
    }
}

impl SurfaceId {
    /// A surface id holding `value`.
    pub fn new(value: &str) -> (id: SurfaceId)
        ensures
            id@ == value@,
    {
        SurfaceId(value.to_owned())
    }

    /// A surface id holding the characters of `value`.
    pub fn from_string(value: String) -> (id: SurfaceId)
        ensures
            id@ == value@,
    {
        SurfaceId(value)
    }

    /// The id as text.
    pub fn as_str(&self) -> (s: &str)
        ensures
            s@ == self@,
    {
        self.0.as_str()
    }
}

/// Which kind of backend renders the surfaces.
#[derive(Debug, Clone, Copy, PartialEq, Eq, Structural)]
pub enum SurfaceBackendKind {
    Native,
    Tmux,
}

/// What happened to a surface.
#[derive(Debug, Clone, Copy, PartialEq, Eq, Structural)]
pub enum SurfaceEventKind {
    LaunchRequested,
    HudRequested,
    Attached,
    CleanedUp,
    RenderRequested,
    FallbackDirect,
}

/// An event on one surface, tagged with the backend that raised it.
#[derive(Debug, Clone, PartialEq, Eq)]
pub struct SurfaceEvent {
    pub surface_id: SurfaceId,
    pub backend: SurfaceBackendKind,
    pub kind: SurfaceEventKind,
}

/// The leader's surface.
#[derive(Debug, Clone, PartialEq, Eq)]
pub struct LeaderSurface {
    pub id: SurfaceId,
}

/// The surface of one named worker.
#[derive(Debug, Clone, PartialEq, Eq)]
pub struct WorkerSurface {
    pub id: SurfaceId,
    pub worker_name: String,
}

/// The HUD's surface; `watch` tells a continuously refreshed HUD from an inline one.
#[derive(Debug, Clone, PartialEq, Eq)]
pub struct HudSurface {
    pub id: SurfaceId,
    pub watch: bool,
}

/// The mode word of a HUD surface id.
pub open spec fn hud_mode(watch: bool) -> Seq<char> {
    if watch {
        "watch"@
    } else {
        "inline"@
    }
}

/// A backend that names the surfaces of one session.
pub trait SurfaceBackend {
    /// The kind of this backend.
    spec fn backend_kind_of(&self) -> SurfaceBackendKind;

    /// The id of the leader's surface.
    spec fn leader_id(&self) -> Seq<char>;

    /// The id of the surface of the worker named `worker_name`.
    spec fn worker_id(&self, worker_name: Seq<char>) -> Seq<char>;

    /// The id of the HUD surface.
    spec fn hud_id(&self, watch: bool) -> Seq<char>;

    fn kind(&self) -> (k: SurfaceBackendKind)
        ensures
            k == self.backend_kind_of(),
    ;

    fn leader_surface(&self) -> (s: LeaderSurface)
        ensures
            s.id@ == self.leader_id(),
    ;

    fn worker_surface(&self, worker_name: &str) -> (s: WorkerSurface)
        ensures
            s.id@ == self.worker_id(worker_name@),
            s.worker_name@ == worker_name@,
    ;

    fn hud_surface(&self, watch: bool) -> (s: HudSurface)
        ensures
            s.id@ == self.hud_id(watch),
            s.watch == watch,
    ;
}

/// `<prefix>:<session>:<rest>`, the shape of every surface id.
pub open spec fn surface_name(prefix: Seq<char>, session: Seq<char>, rest: Seq<char>) -> Seq<
    char,
> {
    prefix + ":"@ + session + ":"@ + rest
}

/// Builds `<prefix>:<session>:<rest>`.
fn build_surface_name(prefix: &str, session: &str, rest: &str) -> (s: String)
    ensures
        s@ == surface_name(prefix@, session@, rest@),
{
    let mut s = String::new();
    s.append(prefix);
    s.append(":");
    s.append(session);
    s.append(":");
    s.append(rest);
    s
}

/// Builds `<prefix>:<session>:<middle><last>`.
fn build_surface_name2(prefix: &str, session: &str, middle: &str, last: &str) -> (s: String)
    ensures
        s@ == surface_name(prefix@, session@, middle@ + last@),
{
    let mut s = String::new();
    s.append(prefix);
    s.append(":");
    s.append(session);
    s.append(":");
    s.append(middle);
    s.append(last);
    assert(s@ =~= surface_name(prefix@, session@, middle@ + last@));
    s
}

/// The mode word of a HUD surface id, as text.
fn hud_mode_str(watch: bool) -> (s: &'static str)
    ensures
        s@ == hud_mode(watch),
{
    if watch {
        "watch"
    } else {
        "inline"
    }
}

/// Surfaces rendered natively, named after a runtime session id.
#[derive(Debug, Clone, PartialEq, Eq)]
pub struct NativeBackend {
    runtime_session_id: String,
}

impl View for NativeBackend {
    type V = Seq<char>;

    /// The runtime session id.
    closed spec fn view(&self) -> Seq<char> {
        self.runtime_session_id@
    }
}

impl NativeBackend {
    /// A native backend for the runtime session `runtime_session_id`.
    pub fn new(runtime_session_id: &str) -> (b: NativeBackend)
        ensures
            b@ == runtime_session_id@,
    {
        NativeBackend { runtime_session_id: runtime_session_id.to_owned() }
    }
}

impl SurfaceBackend for NativeBackend {
    open spec fn backend_kind_of(&self) -> SurfaceBackendKind {
        SurfaceBackendKind::Native
    }

    open spec fn leader_id(&self) -> Seq<char> {
        surface_name("native"@, self@, "leader"@)
    }

    open spec fn worker_id(&self, worker_name: Seq<char>) -> Seq<char> {
        surface_name("native"@, self@, "worker:"@ + worker_name)
    }

    open spec fn hud_id(&self, watch: bool) -> Seq<char> {
        surface_name("native"@, self@, "hud:"@ + hud_mode(watch))
    }

    fn kind(&self) -> (k: SurfaceBackendKind) {
        SurfaceBackendKind::Native
    }

    fn leader_surface(&self) -> (s: LeaderSurface) {
        let name = build_surface_name("native", self.runtime_session_id.as_str(), "leader");
        LeaderSurface { id: SurfaceId::from_string(name) }
    }

    fn worker_surface(&self, worker_name: &str) -> (s: WorkerSurface) {
        let name = build_surface_name2(
            "native",
            self.runtime_session_id.as_str(),
            "worker:",
            worker_name,
        );
        WorkerSurface { id: SurfaceId::from_string(name), worker_name: worker_name.to_owned() }
    }

    fn hud_surface(&self, watch: bool) -> (s: HudSurface) {
        let name = build_surface_name2(
            "native",
            self.runtime_session_id.as_str(),
            "hud:",
            hud_mode_str(watch),
        );
        HudSurface { id: SurfaceId::from_string(name), watch }
    }
}

/// Surfaces rendered as tmux panes, named after a tmux session.
#[derive(Debug, Clone, PartialEq, Eq)]
pub struct TmuxBackend {
    session_name: String,
}

impl View for TmuxBackend {
    type V = Seq<char>;

    /// The tmux session name.
    closed spec fn view(&self) -> Seq<char> {
        self.session_name@
    }
}

impl TmuxBackend {
    /// A tmux backend for the session `session_name`.
    pub fn new(session_name: &str) -> (b: TmuxBackend)
        ensures
            b@ == session_name@,
    {
        TmuxBackend { session_name: session_name.to_owned() }
    }
}

impl SurfaceBackend for TmuxBackend {
    open spec fn backend_kind_of(&self) -> SurfaceBackendKind {
        SurfaceBackendKind::Tmux
    }

    open spec fn leader_id(&self) -> Seq<char> {
        surface_name("tmux"@, self@, "leader"@)
    }

    open spec fn worker_id(&self, worker_name: Seq<char>) -> Seq<char> {
        surface_name("tmux"@, self@, "worker:"@ + worker_name)
    }

    open spec fn hud_id(&self, watch: bool) -> Seq<char> {
        surface_name("tmux"@, self@, "hud:"@ + hud_mode(watch))
    }

    fn kind(&self) -> (k: SurfaceBackendKind) {
        SurfaceBackendKind::Tmux
    }

    fn leader_surface(&self) -> (s: LeaderSurface) {
        let name = build_surface_name("tmux", self.session_name.as_str(), "leader");
        LeaderSurface { id: SurfaceId::from_string(name) }
    }

    fn worker_surface(&self, worker_name: &str) -> (s: WorkerSurface) {
        let name = build_surface_name2(
            "tmux",
            self.session_name.as_str(),
            "worker:",
            worker_name,
        );
        WorkerSurface { id: SurfaceId::from_string(name), worker_name: worker_name.to_owned() }
    }

    fn hud_surface(&self, watch: bool) -> (s: HudSurface) {
        let name = build_surface_name2(
            "tmux",
            self.session_name.as_str(),
            "hud:",
            hud_mode_str(watch),
        );
        HudSurface { id: SurfaceId::from_string(name), watch }
    }
}

/// A launch runtime over one surface backend.
#[derive(Debug, Clone, PartialEq, Eq)]
pub struct SurfaceRuntime<B> {
    backend: B,
}

impl<B> SurfaceRuntime<B> {
    /// The backend this runtime drives.
    pub closed spec fn backend(&self) -> B {
        self.backend
    }
}

impl<B: SurfaceBackend> SurfaceRuntime<B> {
    /// A runtime over `backend`.
    pub fn new(backend: B) -> (r: SurfaceRuntime<B>)
        ensures
            r.backend() == backend,
    {
        SurfaceRuntime { backend }
    }

    /// The kind of the backend.
    pub fn backend_kind(&self) -> (k: SurfaceBackendKind)
        ensures
            k == self.backend().backend_kind_of(),
    {
        self.backend.kind()
    }

    /// The leader's surface.
    pub fn leader_surface(&self) -> (s: LeaderSurface)
        ensures
            s.id@ == self.backend().leader_id(),
    {
        self.backend.leader_surface()
    }

    /// The surface of the worker named `worker_name`.
    pub fn worker_surface(&self, worker_name: &str) -> (s: WorkerSurface)
        ensures
            s.id@ == self.backend().worker_id(worker_name@),
            s.worker_name@ == worker_name@,
    {
        self.backend.worker_surface(worker_name)
    }

    /// The HUD surface, watching or inline.
    pub fn hud_surface(&self, watch: bool) -> (s: HudSurface)
        ensures
            s.id@ == self.backend().hud_id(watch),
            s.watch == watch,
    {
        self.backend.hud_surface(watch)
    }

    /// An event of `kind` on `surface_id`, tagged with this runtime's backend kind.
    pub fn event(&self, surface_id: SurfaceId, kind: SurfaceEventKind) -> (e: SurfaceEvent)
        ensures
            e.surface_id == surface_id,
            e.backend == self.backend().backend_kind_of(),
            e.kind == kind,
    {
        SurfaceEvent { surface_id, backend: self.backend_kind(), kind }
    }
}

// ---------------------------------------------------------------------------
// Laws
// ---------------------------------------------------------------------------

/// Two surface names of one prefix and session differ where their last parts begin
/// with different characters.
proof fn lemma_names_differ(prefix: Seq<char>, session: Seq<char>, r1: Seq<char>, r2: Seq<char>)
    requires
        r1.len() > 0,
        r2.len() > 0,
        r1[0] != r2[0],
    ensures
        surface_name(prefix, session, r1) != surface_name(prefix, session, r2),
{
    let head = prefix + ":"@ + session + ":"@;
    assert(surface_name(prefix, session, r1) == head + r1);
    assert(surface_name(prefix, session, r2) == head + r2);
    assert((head + r1)[head.len() as int] == r1[0]);
    assert((head + r2)[head.len() as int] == r2[0]);
}

/// Surface names of one prefix and session are equal only where their last parts are.
proof fn lemma_names_injective(prefix: Seq<char>, session: Seq<char>, r1: Seq<char>, r2: Seq<char>)
    requires
        surface_name(prefix, session, r1) == surface_name(prefix, session, r2),
    ensures
        r1 == r2,
{
    let head = prefix + ":"@ + session + ":"@;
    assert(surface_name(prefix, session, r1) == head + r1);
    assert(surface_name(prefix, session, r2) == head + r2);
    assert((head + r1).skip(head.len() as int) =~= r1);
    assert((head + r2).skip(head.len() as int) =~= r2);
}

/// Within one session, the leader, each worker and the HUD have different surface ids,
/// different workers have different ids, and the watching and inline HUDs differ.
proof fn lemma_roles_distinct(prefix: Seq<char>, session: Seq<char>, worker: Seq<char>, other: Seq<char>)
    ensures
        surface_name(prefix, session, "leader"@) != surface_name(prefix, session, "worker:"@ + worker),
        surface_name(prefix, session, "leader"@) != surface_name(prefix, session, "hud:"@ + hud_mode(true)),
        surface_name(prefix, session, "leader"@) != surface_name(prefix, session, "hud:"@ + hud_mode(false)),
        surface_name(prefix, session, "worker:"@ + worker) != surface_name(prefix, session, "hud:"@ + hud_mode(true)),
        surface_name(prefix, session, "worker:"@ + worker) != surface_name(prefix, session, "hud:"@ + hud_mode(false)),
        surface_name(prefix, session, "hud:"@ + hud_mode(true)) != surface_name(prefix, session, "hud:"@ + hud_mode(false)),
        surface_name(prefix, session, "worker:"@ + worker) == surface_name(prefix, session, "worker:"@ + other) ==> worker == other,
{
    reveal_strlit("leader");
    reveal_strlit("worker:");
    reveal_strlit("hud:");
    reveal_strlit("watch");
    reveal_strlit("inline");
    let w = "worker:"@ + worker;
    let h1 = "hud:"@ + hud_mode(true);
    let h0 = "hud:"@ + hud_mode(false);
    assert(w[0] == 'w');
    assert(h1[0] == 'h');
    assert(h0[0] == 'h');
    assert("leader"@[0] == 'l');
    lemma_names_differ(prefix, session, "leader"@, w);
    lemma_names_differ(prefix, session, "leader"@, h1);
    lemma_names_differ(prefix, session, "leader"@, h0);
    lemma_names_differ(prefix, session, w, h1);
    lemma_names_differ(prefix, session, w, h0);
    if surface_name(prefix, session, h1) == surface_name(prefix, session, h0) {
        lemma_names_injective(prefix, session, h1, h0);
        assert(h1[4] == 'w');
        assert(h0[4] == 'i');
    }
    if surface_name(prefix, session, w) == surface_name(prefix, session, "worker:"@ + other) {
        lemma_names_injective(prefix, session, w, "worker:"@ + other);
        assert(w.skip(7) =~= worker);
        assert(("worker:"@ + other).skip(7) =~= other);
    }
}

/// A native runtime never gives two of its surfaces the same id: the leader, every
/// worker (one id per worker name) and the watching and inline HUDs all differ.
pub proof fn native_surface_ids_distinct(b: NativeBackend, worker: Seq<char>, other: Seq<char>)
    ensures
        b.leader_id() != b.worker_id(worker),
        b.leader_id() != b.hud_id(true),
        b.leader_id() != b.hud_id(false),
        b.worker_id(worker) != b.hud_id(true),
        b.worker_id(worker) != b.hud_id(false),
        b.hud_id(true) != b.hud_id(false),
        b.worker_id(worker) == b.worker_id(other) ==> worker == other,
{
    lemma_roles_distinct("native"@, b@, worker, other);
}

/// A tmux runtime never gives two of its surfaces the same id.
pub proof fn tmux_surface_ids_distinct(b: TmuxBackend, worker: Seq<char>, other: Seq<char>)
    ensures
        b.leader_id() != b.worker_id(worker),
        b.leader_id() != b.hud_id(true),
        b.leader_id() != b.hud_id(false),
        b.worker_id(worker) != b.hud_id(true),
        b.worker_id(worker) != b.hud_id(false),
        b.hud_id(true) != b.hud_id(false),
        b.worker_id(worker) == b.worker_id(other) ==> worker == other,
{
    lemma_roles_distinct("tmux"@, b@, worker, other);
}

/// Native and tmux surface ids never coincide: every native id begins with `native:`,
/// every tmux id with `tmux:`.
pub proof fn native_and_tmux_ids_never_collide(
    n: NativeBackend,
    t: TmuxBackend,
    r1: Seq<char>,
    r2: Seq<char>,
)
    ensures
        surface_name("native"@, n@, r1) != surface_name("tmux"@, t@, r2),
        has_prefix(surface_name("native"@, n@, r1), "native:"@),
        has_prefix(surface_name("tmux"@, t@, r2), "tmux:"@),
{
    reveal_strlit("native");
    reveal_strlit("tmux");
    reveal_strlit("native:");
    reveal_strlit("tmux:");
    reveal_strlit(":");
    let a = surface_name("native"@, n@, r1);
    let b = surface_name("tmux"@, t@, r2);
    assert(a[0] == 'n');
    assert(b[0] == 't');
    assert(a.take(7) =~= "native:"@);
    assert(b.take(5) =~= "tmux:"@);
}


} // verus!
