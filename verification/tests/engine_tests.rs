use resonance::text::decimal_string;
use resonance::engine_core::logger::{colored_line, level_label, level_style, log_file_path, plain_line, LogLevel};
use resonance::addons::wireframe::WireframeState;
use resonance::app::plugin::{CorePlugin, PluginState};
use resonance::app::registry::{AddPluginOutcome, PluginRegistry, ResonanceMode};
use resonance::app::runner::ResonanceRunner;
use resonance::app::stage::Stage;
use resonance::audio::plugin::{AudioPlugin, AudioPluginConfig};
use resonance::engine_core::debug_ui::DebugUiState;
use resonance::engine_core::error::ResonanceError;
use resonance::engine_core::profiler::Profiler;
use resonance::editor::scene::SceneInfo;
use std::any::TypeId;
use std::time::Duration;

#[test]
fn stages_in_order() {
    let all = Stage::all();
    assert_eq!(all.len(), 7);
    assert_eq!(all[0], Stage::Startup);
    assert_eq!(all[6], Stage::Last);
    let names: Vec<&str> = all.iter().map(|s| s.name()).collect();
    assert_eq!(
        names,
        vec!["Startup", "PreUpdate", "Update", "PostUpdate", "FixedUpdate", "Render", "Last"]
    );
}

#[test]
fn runner_frame_plan() {
    let client = ResonanceRunner::builder().build();
    assert!(client.frame_stages(true, 3).is_empty());
    assert_eq!(
        client.frame_stages(false, 2),
        vec![
            Stage::PreUpdate,
            Stage::Update,
            Stage::FixedUpdate,
            Stage::FixedUpdate,
            Stage::PostUpdate,
            Stage::Render,
            Stage::Last
        ]
    );
    let headless = ResonanceRunner::builder().with_rendering(false).build();
    assert_eq!(headless.frame_stages(false, 0), vec![Stage::PreUpdate, Stage::Update, Stage::PostUpdate, Stage::Last]);
}

#[test]
fn runner_stages() {
    let client = ResonanceRunner::builder().build();
    assert_eq!(client.post_update_stages(), vec![Stage::PostUpdate, Stage::Render, Stage::Last]);
    let server = ResonanceRunner::builder().with_profiling(true).with_rendering(false).build();
    assert_eq!(server.post_update_stages(), vec![Stage::PostUpdate, Stage::Last]);
}

struct A;
struct B;
struct C;

#[test]
fn plugin_registry() {
    let ta = TypeId::of::<A>();
    let tb = TypeId::of::<B>();
    let tc = TypeId::of::<C>();
    let mut reg = PluginRegistry::new();
    let o = reg.begin_add(tb, "B".into(), ResonanceMode::Client, true, true, vec![ta]);
    assert_eq!(o, AddPluginOutcome::MissingDependency(0));
    assert_eq!(reg.get_plugin_metadata(&tb).unwrap().state, PluginState::Failed);
    assert!(!reg.has_plugin(&tb));
    assert_eq!(
        reg.begin_add(tb, "B".into(), ResonanceMode::Client, true, true, vec![]),
        AddPluginOutcome::AlreadyLoaded
    );
    assert_eq!(
        reg.begin_add(tc, "C".into(), ResonanceMode::Server, true, false, vec![]),
        AddPluginOutcome::IncompatibleMode
    );
    assert!(reg.get_plugin_metadata(&tc).is_none());
    assert_eq!(
        reg.begin_add(ta, "A".into(), ResonanceMode::Client, true, false, vec![]),
        AddPluginOutcome::Build
    );
    assert_eq!(reg.get_plugin_metadata(&ta).unwrap().state, PluginState::Building);
    assert!(!reg.has_plugin(&ta));
    reg.finish_build(&ta);
    assert!(reg.has_plugin(&ta));
    // a failed dependency still counts as present
    assert_eq!(
        reg.begin_add(tc, "C".into(), ResonanceMode::Client, true, true, vec![ta, tb]),
        AddPluginOutcome::Build
    );
    let _ = CorePlugin::new();
}

#[test]
fn resonance_errors() {
    assert!(matches!(ResonanceError::custom("c".into()), ResonanceError::Custom(m) if m == "c"));
    assert_eq!(ResonanceError::asset_load("x".into()).message(), "Asset loading error: x");
    assert_eq!(ResonanceError::scene("x".into()).message(), "Scene error: x");
    assert_eq!(ResonanceError::serialization("x".into()).message(), "Serialization error: x");
    assert_eq!(ResonanceError::not_found("x".into()).message(), "Resource not found: x");
    assert_eq!(ResonanceError::invalid_operation("x".into()).message(), "Invalid operation: x");
    assert_eq!(ResonanceError::custom("plain".into()).message(), "plain");
}

#[test]
fn profiler_records_nothing() {
    let mut p = Profiler::default();
    p.record_timing("Update", Duration::from_millis(3));
    p.record_timing_owned("Update", Duration::from_millis(3));
}

#[test]
fn debug_panels_toggle() {
    let mut s = DebugUiState::default();
    assert!(!s.show_profiler && !s.show_performance && !s.show_general_info);
    s.handle_shortcuts(true, false, true);
    assert!(s.show_profiler && !s.show_performance && s.show_general_info);
    s.handle_shortcuts(true, true, false);
    assert!(!s.show_profiler && s.show_performance && s.show_general_info);
    let mut w = WireframeState::default();
    assert!(!w.enabled);
    w.handle_toggle(true);
    assert!(w.enabled);
    w.handle_toggle(false);
    assert!(w.enabled);
    w.handle_toggle(true);
    assert!(!w.enabled);
}

#[test]
fn audio_plugin_settings() {
    let p = AudioPlugin::new();
    assert!(p.spatial_audio_active() && p.doppler_active());
    let p = AudioPlugin::new().without_spatial_audio();
    assert!(!p.spatial_audio_active());
    assert!(!p.doppler_active());
    let p = AudioPlugin::default().without_doppler();
    assert!(p.spatial_audio_active() && !p.doppler_active());
    let p = AudioPlugin::with_config(AudioPluginConfig { enable_spatial_audio: true, enable_doppler: false });
    assert!(!p.doppler_active());
    let c = AudioPluginConfig::default();
    assert!(c.enable_spatial_audio && c.enable_doppler);
}

#[test]
fn scene_info_fields() {
    let s = SceneInfo { name: "main".into(), entity_count: 3, active: true };
    assert_eq!(s.entity_count, 3);
}

#[test]
fn log_record_lines() {
    assert_eq!(level_label(LogLevel::Warn), "WARN ");
    assert_eq!(level_label(LogLevel::Error), "ERROR");
    assert_eq!(level_style(LogLevel::Info), "\x1b[32m");
    assert_eq!(
        colored_line(LogLevel::Info, "resonance::app", "started"),
        "\x1b[32m[INFO ]\x1b[0m [resonance::app] started"
    );
    assert_eq!(plain_line(LogLevel::Debug, "net", "ping 3"), "[DEBUG] [net] ping 3");
    assert_eq!(log_file_path("2024-01-02_03-04-05"), "logs/resonance_2024-01-02_03-04-05.log");
}

#[test]
fn decimal_rendering() {
    for v in [0u64, 7, 10, 99, 100, 12345, u64::MAX] {
        assert_eq!(decimal_string(v), v.to_string());
    }
}
