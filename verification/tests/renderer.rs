use render_core::device::{
    select_adapter, AdapterInfo, AdapterKind, DeviceSelection, QueueFamily,
};
use render_core::engine::{EngineAction, EngineCore, EngineEvent, SynchronizedState};
use render_core::error::GraphicsError;
use render_core::frame::plan_frame;
use render_core::graphics::{
    CommandQueue, GraphicsSubsystem, Polled, RenderCommand,
};
use render_core::pipeline::{model_pipeline, DepthCompare, FrontFace, Topology};
use render_core::surface::{
    clamp_min_image_count, negotiate_format, AcquireOutcome, DepthFormat, PresentationSurface,
    SurfaceFormat,
};

fn formats_with_required() -> Vec<SurfaceFormat> {
    vec![SurfaceFormat::Rgba8Unorm, SurfaceFormat::Bgra8UnormSrgb]
}

fn bound_surface(width: u32, height: u32) -> PresentationSurface {
    PresentationSurface::bind(width, height, &formats_with_required(), 1, 5).unwrap()
}

#[test]
fn bind_negotiates_format_and_clamps_image_count() {
    let s = bound_surface(800, 600);
    assert_eq!(s.width, 800);
    assert_eq!(s.height, 600);
    assert_eq!(s.format, SurfaceFormat::Bgra8UnormSrgb);
    assert_eq!(s.min_image_count, 2);
    assert_eq!(s.depth.width, 800);
    assert_eq!(s.depth.height, 600);
    assert_eq!(s.depth.format, DepthFormat::Depth32Float);
}

#[test]
fn bind_fails_without_required_format() {
    let formats = vec![SurfaceFormat::Rgba8Unorm, SurfaceFormat::Bgra8Unorm];
    let r = PresentationSurface::bind(100, 100, &formats, 2, 5);
    assert_eq!(r.unwrap_err(), GraphicsError::UnsupportedSurfaceFormat);
}

#[test]
fn negotiate_format_picks_required_srgb() {
    assert_eq!(
        negotiate_format(&formats_with_required()).unwrap(),
        SurfaceFormat::Bgra8UnormSrgb
    );
    assert_eq!(
        negotiate_format(&vec![]).unwrap_err(),
        GraphicsError::UnsupportedSurfaceFormat
    );
}

#[test]
fn image_count_clamped_to_two() {
    assert_eq!(clamp_min_image_count(0), 2);
    assert_eq!(clamp_min_image_count(1), 2);
    assert_eq!(clamp_min_image_count(2), 2);
    assert_eq!(clamp_min_image_count(3), 3);
}

#[test]
fn zero_area_surface_acquires_nothing() {
    let mut s = bound_surface(800, 600);
    s.recreate(0, 600);
    let r = s.acquire(AcquireOutcome::Ready, AcquireOutcome::Ready).unwrap();
    assert!(r.is_none());
    s.recreate(800, 0);
    let r = s.acquire(AcquireOutcome::Lost, AcquireOutcome::Lost).unwrap();
    assert!(r.is_none());
}

#[test]
fn zero_area_surface_plans_no_gpu_work() {
    let mut s = bound_surface(640, 480);
    s.recreate(0, 0);
    let pipeline = model_pipeline(s.format);
    let plan = plan_frame(&s, &pipeline, 3, &vec![[0u32; 16]], AcquireOutcome::Ready, AcquireOutcome::Ready)
        .unwrap();
    assert!(plan.is_none());
}

#[test]
fn depth_attachment_tracks_final_resize() {
    let mut s = bound_surface(1280, 720);
    for (w, h) in [(300, 200), (1, 1), (1920, 1080)] {
        s.recreate(w, h);
    }
    assert_eq!(s.width, 1920);
    assert_eq!(s.height, 1080);
    assert_eq!(s.depth.width, 1920);
    assert_eq!(s.depth.height, 1080);
}

#[test]
fn recreate_is_idempotent() {
    let mut once = bound_surface(1280, 720);
    once.recreate(333, 444);
    let mut twice = bound_surface(1280, 720);
    twice.recreate(333, 444);
    twice.recreate(333, 444);
    assert_eq!(once, twice);
}

#[test]
fn surface_lost_then_ready_renders_a_frame() {
    let s = bound_surface(800, 600);
    let pipeline = model_pipeline(s.format);
    let plan = plan_frame(
        &s,
        &pipeline,
        36,
        &vec![[7u32; 16]],
        AcquireOutcome::Lost,
        AcquireOutcome::Ready,
    )
    .unwrap()
    .unwrap();
    assert_eq!(plan.ticket.width, 800);
    assert_eq!(plan.ticket.height, 600);
    assert_eq!(plan.draws.len(), 1);
}

#[test]
fn surface_lost_twice_is_unrecoverable() {
    let s = bound_surface(800, 600);
    let r = s.acquire(AcquireOutcome::Lost, AcquireOutcome::Lost);
    assert_eq!(r.unwrap_err(), GraphicsError::SurfaceUnrecoverable);
    let pipeline = model_pipeline(s.format);
    let planned = plan_frame(
        &s,
        &pipeline,
        3,
        &vec![],
        AcquireOutcome::Lost,
        AcquireOutcome::Lost,
    );
    assert_eq!(planned.unwrap_err(), GraphicsError::SurfaceUnrecoverable);
}

#[test]
fn frame_plan_draws_in_instance_order() {
    let s = bound_surface(320, 240);
    let pipeline = model_pipeline(s.format);
    let mvps = vec![[1u32; 16], [2u32; 16], [3u32; 16]];
    let plan = plan_frame(&s, &pipeline, 12, &mvps, AcquireOutcome::Ready, AcquireOutcome::Ready)
        .unwrap()
        .unwrap();
    assert_eq!(plan.depth_clear_bits, 0);
    assert_eq!(plan.draws.len(), 3);
    for (i, draw) in plan.draws.iter().enumerate() {
        assert_eq!(draw.push_constants.mvp, mvps[i]);
        assert_eq!(draw.first_index, 0);
        assert_eq!(draw.index_count, 12);
    }
}

#[test]
fn model_pipeline_matches_reversed_z_convention() {
    let p = model_pipeline(SurfaceFormat::Bgra8UnormSrgb);
    assert_eq!(p.depth_compare, DepthCompare::GreaterEqual);
    assert_eq!(p.depth_format, DepthFormat::Depth32Float);
    assert_eq!(p.topology, Topology::TriangleList);
    assert_eq!(p.front_face, FrontFace::Ccw);
    assert!(!p.cull_enabled);
    assert_eq!(p.push_constant_bytes, 64);
    assert!(p.push_constant_vertex_only);
    assert_eq!(p.vertex_buffers.len(), 2);
    assert_eq!(p.vertex_buffers[0].stride_bytes, 12);
    assert_eq!(p.vertex_buffers[1].shader_location, 1);
    assert!(!p.needs_rebuild(SurfaceFormat::Bgra8UnormSrgb));
    assert!(p.needs_rebuild(SurfaceFormat::Rgba8UnormSrgb));
}

fn adapter(kind: AdapterKind, eligible: bool, families: Vec<QueueFamily>) -> AdapterInfo {
    AdapterInfo {
        kind,
        supports_presentation: eligible,
        has_required_features: eligible,
        queue_families: families,
    }
}

fn render_family() -> QueueFamily {
    QueueFamily { graphics: true, present: true }
}

#[test]
fn adapter_selection_prefers_discrete() {
    let adapters = vec![
        adapter(AdapterKind::IntegratedGpu, true, vec![render_family()]),
        adapter(AdapterKind::DiscreteGpu, true, vec![render_family()]),
        adapter(AdapterKind::DiscreteGpu, true, vec![render_family()]),
    ];
    let sel = select_adapter(&adapters).unwrap();
    assert_eq!(sel, DeviceSelection { adapter_index: 1, queue_family_index: 0 });
}

#[test]
fn adapter_selection_skips_ineligible() {
    let adapters = vec![
        adapter(AdapterKind::DiscreteGpu, false, vec![render_family()]),
        adapter(AdapterKind::Cpu, true, vec![render_family()]),
    ];
    let sel = select_adapter(&adapters).unwrap();
    assert_eq!(sel.adapter_index, 1);
}

#[test]
fn adapter_selection_reports_no_suitable_adapter() {
    let adapters = vec![adapter(AdapterKind::DiscreteGpu, false, vec![render_family()])];
    assert_eq!(select_adapter(&adapters).unwrap_err(), GraphicsError::NoSuitableAdapter);
    assert_eq!(select_adapter(&vec![]).unwrap_err(), GraphicsError::NoSuitableAdapter);
}

#[test]
fn adapter_selection_reports_no_suitable_queue() {
    let families = vec![
        QueueFamily { graphics: true, present: false },
        QueueFamily { graphics: false, present: true },
    ];
    let adapters = vec![adapter(AdapterKind::DiscreteGpu, true, families)];
    assert_eq!(select_adapter(&adapters).unwrap_err(), GraphicsError::NoSuitableQueue);
}

#[test]
fn adapter_selection_takes_first_supporting_family() {
    let families = vec![
        QueueFamily { graphics: true, present: false },
        QueueFamily { graphics: true, present: true },
        QueueFamily { graphics: true, present: true },
    ];
    let adapters = vec![adapter(AdapterKind::VirtualGpu, true, families)];
    let sel = select_adapter(&adapters).unwrap();
    assert_eq!(sel.queue_family_index, 1);
}

#[test]
fn model_ids_are_monotonic_and_skip_zero() {
    let mut g = GraphicsSubsystem::new(16);
    let m1 = g.load_model(vec![1, 2, 3]).unwrap();
    let m2 = g.load_model(vec![4]).unwrap();
    let t1 = g.load_texture(vec![5]).unwrap();
    let t2 = g.load_texture(vec![6]).unwrap();
    assert_ne!(m1.0, 0);
    assert_ne!(m2.0, 0);
    assert_ne!(m1.0, m2.0);
    assert!(m2.0 > m1.0);
    assert_ne!(t1.0, 0);
    assert_ne!(t2.0, 0);
    assert_ne!(t1.0, t2.0);
    assert_eq!(m1.0, 1);
    assert_eq!(m2.0, 2);
    assert_eq!(t1.0, 1);
    assert_eq!(t2.0, 2);
}

#[test]
fn full_queue_reports_busy_and_burns_the_id() {
    let mut g = GraphicsSubsystem::new(1);
    let m1 = g.load_model(vec![1]).unwrap();
    assert_eq!(m1.0, 1);
    assert_eq!(g.load_model(vec![2]).unwrap_err(), GraphicsError::Busy);
    match g.queue.poll() {
        Polled::Command(RenderCommand::LoadModel(id, bytes)) => {
            assert_eq!(id, 1);
            assert_eq!(bytes, vec![1]);
        },
        _ => panic!("expected the first load"),
    }
    let m3 = g.load_model(vec![3]).unwrap();
    assert_eq!(m3.0, 3);
}

#[test]
fn resize_commands_coalesce_to_latest() {
    let mut g = GraphicsSubsystem::new(16);
    g.resize_window(100, 100).unwrap();
    g.resize_window(200, 200).unwrap();
    g.resize_window(50, 50).unwrap();
    let mut surface = bound_surface(1280, 720);
    match g.queue.poll() {
        Polled::Command(RenderCommand::ResizeSwapchain(w, h)) => {
            assert_eq!((w, h), (50, 50));
            surface.recreate(w, h);
        },
        _ => panic!("expected the coalesced resize"),
    }
    assert_eq!((surface.width, surface.height), (50, 50));
    assert_eq!((surface.depth.width, surface.depth.height), (50, 50));
    assert!(matches!(g.queue.poll(), Polled::Empty));
}

#[test]
fn resize_is_polled_before_queued_loads() {
    let mut q = CommandQueue::new(4);
    q.try_send(RenderCommand::LoadModel(1, vec![9])).unwrap();
    q.try_send(RenderCommand::ResizeSwapchain(10, 20)).unwrap();
    assert!(matches!(
        q.poll(),
        Polled::Command(RenderCommand::ResizeSwapchain(10, 20))
    ));
    assert!(matches!(q.poll(), Polled::Command(RenderCommand::LoadModel(1, _))));
    assert!(matches!(q.poll(), Polled::Empty));
}

#[test]
fn closed_queue_drains_then_disconnects() {
    let mut q = CommandQueue::new(4);
    q.try_send(RenderCommand::LoadTexture(1, vec![1])).unwrap();
    q.close();
    assert!(matches!(q.poll(), Polled::Command(RenderCommand::LoadTexture(1, _))));
    assert!(matches!(q.poll(), Polled::Disconnected));
}

#[test]
fn engine_event_policy() {
    let mut e = EngineCore::new(8, 0);
    assert_eq!(e.handle_window_event(EngineEvent::CloseRequested), EngineAction::Exit);
    assert_eq!(e.handle_window_event(EngineEvent::RedrawRequested), EngineAction::Render);
    assert_eq!(e.handle_window_event(EngineEvent::Destroyed), EngineAction::Continue);
    let bits = 1.5f64.to_bits();
    assert_eq!(
        e.handle_window_event(EngineEvent::ScaleFactorChanged(bits)),
        EngineAction::Continue
    );
    assert_eq!(e.scale_factor_bits, bits);
    assert_eq!(e.handle_window_event(EngineEvent::Resized(640, 480)), EngineAction::Continue);
    assert_eq!(e.graphics.queue.pending_resize, Some((640, 480)));
}

#[test]
fn snapshot_packet_round_trip() {
    let mut packet = Vec::new();
    for word in 0u32..64 {
        packet.extend_from_slice(&word.to_le_bytes());
    }
    assert_eq!(packet.len(), 256);
    let mut s = SynchronizedState::new();
    assert!(s.apply_packet(&packet));
    for p in 0..4 {
        for w in 0..16 {
            assert_eq!(s.player_transforms[p][w], (p * 16 + w) as u32);
        }
    }
}

#[test]
fn short_packet_is_discarded_and_state_kept() {
    let mut good = Vec::new();
    for _ in 0..64 {
        good.extend_from_slice(&7.25f32.to_bits().to_le_bytes());
    }
    let mut e = EngineCore::new(4, 0);
    assert!(e.receive_packet(&good));
    let before = e.sync_state.player_transforms;
    assert!(!e.receive_packet(&vec![0u8; 255]));
    assert!(!e.receive_packet(&vec![0u8; 257]));
    assert!(!e.receive_packet(&vec![]));
    assert_eq!(e.sync_state.player_transforms, before);
    assert_eq!(e.sync_state.player_transforms[0][0], 7.25f32.to_bits());
}

#[test]
fn new_snapshot_is_all_zero() {
    let s = SynchronizedState::new();
    for p in 0..4 {
        for w in 0..16 {
            assert_eq!(s.player_transforms[p][w], 0);
        }
    }
}

#[test]
fn error_messages_name_the_condition() {
    assert_eq!(
        GraphicsError::Busy.message(),
        "the render command queue is full"
    );
    assert_eq!(
        GraphicsError::SurfaceUnrecoverable.message(),
        "the surface was lost and could not be reconstructed"
    );
    assert_eq!(GraphicsError::NoSuitableAdapter.message(), "no suitable graphics adapter");
}
