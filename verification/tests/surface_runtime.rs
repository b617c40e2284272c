use omx_cli::surface_runtime::{
    NativeBackend, SurfaceBackendKind, SurfaceEventKind, SurfaceId, SurfaceRuntime, TmuxBackend,
};

#[test]
fn native_runtime_emits_native_surface_ids() {
    let runtime = SurfaceRuntime::new(NativeBackend::new("prompt-demo"));

    assert_eq!(runtime.backend_kind(), SurfaceBackendKind::Native);
    assert_eq!(
        runtime.leader_surface().id.as_str(),
        "native:prompt-demo:leader"
    );
    assert_eq!(
        runtime.worker_surface("worker-2").id.as_str(),
        "native:prompt-demo:worker:worker-2"
    );
    assert_eq!(
        runtime.hud_surface(true).id.as_str(),
        "native:prompt-demo:hud:watch"
    );
}

#[test]
fn tmux_runtime_emits_tmux_surface_ids_and_events() {
    let runtime = SurfaceRuntime::new(TmuxBackend::new("omx-demo"));
    let hud = runtime.hud_surface(true);
    let event = runtime.event(hud.id.clone(), SurfaceEventKind::HudRequested);

    assert_eq!(runtime.backend_kind(), SurfaceBackendKind::Tmux);
    assert_eq!(hud.id.as_str(), "tmux:omx-demo:hud:watch");
    assert_eq!(event.backend, SurfaceBackendKind::Tmux);
    assert_eq!(event.kind, SurfaceEventKind::HudRequested);
    assert_eq!(event.surface_id.as_str(), "tmux:omx-demo:hud:watch");
}

#[test]
fn inline_hud_and_worker_surfaces() {
    let runtime = SurfaceRuntime::new(TmuxBackend::new("s"));
    let hud = runtime.hud_surface(false);
    assert_eq!(hud.id.as_str(), "tmux:s:hud:inline");
    assert!(!hud.watch);
    let worker = runtime.worker_surface("w1");
    assert_eq!(worker.id.as_str(), "tmux:s:worker:w1");
    assert_eq!(worker.worker_name, "w1");
    assert_eq!(runtime.leader_surface().id.as_str(), "tmux:s:leader");
}

#[test]
fn surface_ids_of_one_runtime_differ() {
    let runtime = SurfaceRuntime::new(NativeBackend::new("x"));
    let ids = [
        runtime.leader_surface().id,
        runtime.worker_surface("a").id,
        runtime.worker_surface("b").id,
        runtime.hud_surface(true).id,
        runtime.hud_surface(false).id,
    ];
    for i in 0..ids.len() {
        for j in 0..ids.len() {
            if i != j {
                assert_ne!(ids[i], ids[j]);
            }
        }
    }
    let tmux = SurfaceRuntime::new(TmuxBackend::new("x"));
    assert_ne!(tmux.leader_surface().id, runtime.leader_surface().id);
}

#[test]
fn events_carry_the_runtime_backend() {
    let runtime = SurfaceRuntime::new(NativeBackend::new("direct-launch"));
    let event = runtime.event(SurfaceId::new("anything"), SurfaceEventKind::FallbackDirect);
    assert_eq!(event.backend, SurfaceBackendKind::Native);
    assert_eq!(event.kind, SurfaceEventKind::FallbackDirect);
    assert_eq!(event.surface_id.as_str(), "anything");
}
