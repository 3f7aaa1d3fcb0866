//! The application state: the text input buffer, the bullet manager and the
//! stroke canvas, mutated once per frame by the GUI shell that owns the
//! window.

use vstd::prelude::*;
use crate::bullet::spawned;
use crate::bullet::Bullet;
use crate::bullet::BulletManager;
use crate::bullet::BOTTOM_MARGIN;
use crate::stroke::Line;
use crate::stroke::StrokeCanvas;
use crate::stroke::StrokeStyle;
use crate::Rgb;
use crate::Size;

verus! {

/// The whole application state. There is exactly one instance, constructed
/// at startup and handed by exclusive reference into each frame update.
pub struct MainApp {
    /// The fixed window size.
    pub app_size: Size,
    /// The text input buffer; an Enter release submits it.
    pub msg_send: String,
    /// The live bullets.
    pub bullets: BulletManager,
    /// The freehand drawing canvas.
    pub canvas: StrokeCanvas,
}

impl Default for MainApp {
    /// The startup state: an 800 by 450 window, an empty input buffer, no
    /// bullets, no strokes, and a thin light-blue pen.
    fn default() -> (r: Self)
        ensures
            r.app_size == (Size { width: 800, height: 450 }),
            r.msg_send@ == Seq::<char>::empty(),
            r.bullets.wf(),
            r.bullets.bullets@ == Seq::<Bullet>::empty(),
            r.bullets.next_id == 0,
            r.canvas.lines@ == Seq::<Line>::empty(),
            r.canvas.stroke == (StrokeStyle { width: 1, color: Rgb { r: 173, g: 216, b: 230 } }),
    {
        MainApp {
            app_size: Size { width: 800, height: 450 },
            msg_send: String::new(),
            bullets: BulletManager::new(),
            canvas: StrokeCanvas::new(
                StrokeStyle { width: 1, color: Rgb { r: 173, g: 216, b: 230 } },
            ),
        }
    }
}

impl MainApp {
    /// The Enter-key commit: when Enter was released without the control
    /// modifier held, the input buffer's text becomes a new bullet (empty
    /// text included) and the buffer is reset; on any other input nothing
    /// changes. This runs synchronously inside the frame that saw the key
    /// event.
    pub fn commit_message(&mut self, enter_released: bool, ctrl_down: bool, now: u64) -> (r:
        Option<u64>)
        requires
            old(self).app_size.height > BOTTOM_MARGIN,
            old(self).bullets.wf(),
            old(self).bullets.next_id < u64::MAX,
        ensures
            final(self).bullets.wf(),
            final(self).app_size == old(self).app_size,
            final(self).canvas.lines@ == old(self).canvas.lines@,
            final(self).canvas.stroke == old(self).canvas.stroke,
            enter_released && !ctrl_down ==> {
                &&& r == Some(old(self).bullets.next_id)
                &&& final(self).msg_send@ == Seq::<char>::empty()
                &&& final(self).bullets.next_id == old(self).bullets.next_id + 1
                &&& final(self).bullets.bullets@ == old(self).bullets.bullets@.push(
                    final(self).bullets.bullets@.last(),
                )
                &&& spawned(
                    final(self).bullets.bullets@.last(),
                    old(self).bullets.next_id,
                    old(self).msg_send@,
                    now,
                    old(self).app_size,
                )
            },
            !(enter_released && !ctrl_down) ==> {
                &&& r == None::<u64>
                &&& final(self).msg_send@ == old(self).msg_send@
                &&& final(self).bullets.bullets@ == old(self).bullets.bullets@
                &&& final(self).bullets.next_id == old(self).bullets.next_id
            },
    {
        if enter_released && !ctrl_down {
            let text = self.msg_send.clone();
            self.msg_send = String::new();
            let size = self.app_size;
            let id = self.bullets.submit(text, now, size);
            Some(id)
        } else {
            None
        }
    }
}

} // verus!
