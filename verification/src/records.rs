//! What the compositor reports: clients, the active window and monitors, and
//! the window and layout records made from them.
use vstd::prelude::*;

verus! {

/// A compositor workspace; `0` stands for none.
#[derive(Clone, Copy, Debug, PartialEq, Eq, Structural)]
pub struct Workspace {
    pub id: i64,
}

/// One client in the compositor's client list.
#[derive(Debug, PartialEq, Eq)]
pub struct Client {
    pub address: String,
    pub mapped: bool,
    pub hidden: bool,
    pub pid: i64,
    pub title: String,
    pub class: String,
    pub initial_class: String,
    pub at: [i32; 2],
    pub size: [i32; 2],
    pub workspace: Workspace,
    pub initial_title: String,
    pub stable_id: String,
}

/// The contents of a [`Client`].
pub struct ClientView {
    pub address: Seq<char>,
    pub mapped: bool,
    pub hidden: bool,
    pub pid: i64,
    pub title: Seq<char>,
    pub class: Seq<char>,
    pub initial_class: Seq<char>,
    pub at: [i32; 2],
    pub size: [i32; 2],
    pub workspace: i64,
    pub initial_title: Seq<char>,
    pub stable_id: Seq<char>,
}

impl View for Client {
    type V = ClientView;

    open spec fn view(&self) -> ClientView {
        ClientView {
            address: self.address@,
            mapped: self.mapped,
            hidden: self.hidden,
            pid: self.pid,
            title: self.title@,
            class: self.class@,
            initial_class: self.initial_class@,
            at: self.at,
            size: self.size,
            workspace: self.workspace.id,
            initial_title: self.initial_title@,
            stable_id: self.stable_id@,
        }
    }
}

impl DeepView for Client {
    type V = ClientView;

    open spec fn deep_view(&self) -> ClientView {
        self@
    }
}

impl Clone for Client {
    fn clone(&self) -> (copy: Self)
        ensures
            copy == *self,
    {
        Client {
            address: self.address.clone(),
            mapped: self.mapped,
            hidden: self.hidden,
            pid: self.pid,
            title: self.title.clone(),
            class: self.class.clone(),
            initial_class: self.initial_class.clone(),
            at: self.at,
            size: self.size,
            workspace: self.workspace,
            initial_title: self.initial_title.clone(),
            stable_id: self.stable_id.clone(),
        }
    }
}

/// The window that holds the keyboard focus. With nothing focused, the address
/// is empty.
#[derive(Debug, PartialEq, Eq)]
pub struct ActiveWindow {
    pub address: String,
    pub pid: Option<u32>,
    pub class: String,
    pub initial_class: String,
    pub initial_title: String,
    pub stable_id: String,
}

/// The contents of an [`ActiveWindow`].
pub struct ActiveWindowView {
    pub address: Seq<char>,
    pub pid: Option<u32>,
    pub class: Seq<char>,
    pub initial_class: Seq<char>,
    pub initial_title: Seq<char>,
    pub stable_id: Seq<char>,
}

impl View for ActiveWindow {
    type V = ActiveWindowView;

    open spec fn view(&self) -> ActiveWindowView {
        ActiveWindowView {
            address: self.address@,
            pid: self.pid,
            class: self.class@,
            initial_class: self.initial_class@,
            initial_title: self.initial_title@,
            stable_id: self.stable_id@,
        }
    }
}

impl DeepView for ActiveWindow {
    type V = ActiveWindowView;

    open spec fn deep_view(&self) -> ActiveWindowView {
        self@
    }
}

/// One output. Its mode `width` and `height` are physical pixels, its position
/// is in logical coordinates.
#[derive(Clone, Copy, Debug, PartialEq, Eq)]
pub struct Monitor {
    pub active_workspace: Workspace,
    pub x: i32,
    pub y: i32,
    pub width: u32,
    pub height: u32,
    /// Width and height, each divided by the output scale and rounded to the
    /// nearest integer; `None` when the scale is no positive finite number.
    pub scaled: Option<(u32, u32)>,
    /// The output transform; the odd ones turn the picture by a right angle.
    pub transform: u8,
}

/// Logical compositor coordinate space accepted by Hyprland virtual pointers.
#[derive(Clone, Copy, Debug, PartialEq, Eq, Structural)]
pub struct OutputLayout {
    pub x: i32,
    pub y: i32,
    pub width: u32,
    pub height: u32,
}

/// Compositor-owned Hyprland metadata for one mapped toplevel.
#[derive(Debug, PartialEq, Eq)]
pub struct Window {
    pub address: u64,
    pub pid: u32,
    pub title: String,
    pub app_id: String,
    pub x: i32,
    pub y: i32,
    pub width: u32,
    pub height: u32,
    pub workspace: i64,
    pub visible: bool,
}

/// The contents of a [`Window`].
pub struct WindowView {
    pub address: u64,
    pub pid: u32,
    pub title: Seq<char>,
    pub app_id: Seq<char>,
    pub x: i32,
    pub y: i32,
    pub width: u32,
    pub height: u32,
    pub workspace: i64,
    pub visible: bool,
}

impl View for Window {
    type V = WindowView;

    open spec fn view(&self) -> WindowView {
        WindowView {
            address: self.address,
            pid: self.pid,
            title: self.title@,
            app_id: self.app_id@,
            x: self.x,
            y: self.y,
            width: self.width,
            height: self.height,
            workspace: self.workspace,
            visible: self.visible,
        }
    }
}

impl DeepView for Window {
    type V = WindowView;

    open spec fn deep_view(&self) -> WindowView {
        self@
    }
}

impl Clone for Window {
    fn clone(&self) -> (copy: Self)
        ensures
            copy == *self,
    {
        Window {
            address: self.address,
            pid: self.pid,
            title: self.title.clone(),
            app_id: self.app_id.clone(),
            x: self.x,
            y: self.y,
            width: self.width,
            height: self.height,
            workspace: self.workspace,
            visible: self.visible,
        }
    }
}

} // verus!
