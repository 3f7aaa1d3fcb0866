use pick::state::MainApp;
use pick::stroke::Point;

#[test]
fn default_state() {
    let app = MainApp::default();
    assert_eq!(app.app_size.width, 800);
    assert_eq!(app.app_size.height, 450);
    assert_eq!(app.msg_send, "");
    assert!(app.bullets.bullets.is_empty());
    assert!(app.canvas.lines.is_empty());
    assert_eq!(app.canvas.stroke.width, 1);
    let c = app.canvas.stroke.color;
    assert_eq!((c.r, c.g, c.b), (173, 216, 230));
}

#[test]
fn enter_commits_buffer_and_resets_it() {
    let mut app = MainApp::default();
    app.msg_send = "hi there".to_string();
    let id = app.commit_message(true, false, 0);
    assert_eq!(id, Some(0));
    assert_eq!(app.msg_send, "");
    assert_eq!(app.bullets.bullets.len(), 1);
    assert_eq!(app.bullets.bullets[0].msg, "hi there");
    assert_eq!(app.bullets.bullets[0].time, 0);
}

#[test]
fn enter_with_ctrl_commits_nothing() {
    let mut app = MainApp::default();
    app.msg_send = "draft".to_string();
    assert_eq!(app.commit_message(true, true, 0), None);
    assert_eq!(app.commit_message(false, false, 0), None);
    assert_eq!(app.commit_message(false, true, 0), None);
    assert_eq!(app.msg_send, "draft");
    assert!(app.bullets.bullets.is_empty());
}

#[test]
fn frame_cycle_spawn_draw_cull() {
    let mut app = MainApp::default();
    app.msg_send = "fly".to_string();
    app.commit_message(true, false, 3);
    app.canvas.on_pointer(Some(Point { x: 1, y: 1 }));
    app.canvas.on_pointer(Some(Point { x: 2, y: 2 }));
    app.canvas.on_pointer(None);
    let frames = app.bullets.advance_and_cull(3, app.app_size.width);
    assert_eq!(frames.len(), 1);
    assert_eq!(frames[0].msg, "fly");
    assert_eq!(frames[0].x, -400);
    assert_eq!(app.canvas.render_list().len(), 1);
    // Sixteen time units later even the slowest bullet has left the 800 wide
    // viewport: 16 * 100 - 400 = 1200.
    let frames = app.bullets.advance_and_cull(19, app.app_size.width);
    assert!(frames.is_empty());
}
