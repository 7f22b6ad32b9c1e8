//! The records that describe the window and the web view. The tree never
//! reads them: they travel with it from the project's configuration to the
//! program that opens the window.

use vstd::prelude::*;
use vstd::string::StringExecFns;

verus! {

/// A size for the window. Lengths and factors are IEEE-754 doubles, held as
/// their bit patterns: nothing here computes with them.
#[derive(Clone, Copy, Debug, PartialEq, Eq, Structural)]
pub enum WindowSize {
    /// A large share of the monitor.
    Large,
    /// A medium share of the monitor.
    Medium,
    /// A small share of the monitor.
    Small,
    /// A width and a height in physical pixels.
    Fixed { width_bits: u64, height_bits: u64 },
    /// A share of the monitor.
    Scale { factor_bits: u64 },
}

/// A position for the window: whole physical pixels, or logical pixels as
/// the bit patterns of IEEE-754 doubles.
#[derive(Clone, Copy, Debug, PartialEq, Eq, Structural)]
pub enum Position {
    /// Physical pixels.
    Physical { x: i32, y: i32 },
    /// Logical pixels.
    Logical { x_bits: u64, y_bits: u64 },
}

/// An icon as raw pixels, four bytes each.
#[derive(Clone, Debug)]
pub struct Icon {
    pub rgba: Vec<u8>,
    pub width: u32,
    pub height: u32,
}

impl Default for Icon {
    fn default() -> (icon: Icon)
        ensures
            icon.rgba@ == Seq::<u8>::empty(),
            icon.width == 0,
            icon.height == 0,
    {
        Icon { rgba: Vec::new(), width: 0, height: 0 }
    }
}

/// How the window is to be opened.
#[derive(Clone, Debug)]
pub struct WindowAttr {
    pub inner_size: Option<WindowSize>,
    pub min_inner_size: Option<WindowSize>,
    pub max_inner_size: Option<WindowSize>,
    pub position: Option<Position>,
    pub resizable: bool,
    pub fullscreen: bool,
    pub title: String,
    pub maximized: bool,
    pub visible: bool,
    pub transparent: bool,
    pub decorations: bool,
    pub always_on_top: bool,
    pub icon: Option<Icon>,
}

/// How the web view is to be opened.
#[derive(Clone, Debug)]
pub struct WebViewAttr {
    pub visible: bool,
    pub transparent: bool,
    pub spa: bool,
    pub url: Option<String>,
    pub html: Option<String>,
    pub initialization_script: Option<String>,
}

/// A project's configuration. Paths are relative to the directory of the
/// file that holds it.
#[derive(Clone, Debug)]
pub struct Config {
    pub source: String,
    pub target: String,
    pub inner_size: Option<WindowSize>,
    pub min_inner_size: Option<WindowSize>,
    pub max_inner_size: Option<WindowSize>,
    pub resizable: bool,
    pub fullscreen: bool,
    pub title: String,
    pub maximized: bool,
    pub visible: bool,
    pub transparent: bool,
    pub decorations: bool,
    pub always_on_top: bool,
    pub icon: Option<String>,
    pub spa: bool,
    pub url: Option<String>,
    pub html: Option<String>,
    pub initialization_script: Option<String>,
}

/// A copy of an optional text.
fn copy_of(text: &Option<String>) -> (copy: Option<String>)
    ensures
        copy == *text,
{
    match text {
        Some(t) => Some(t.clone()),
        None => None,
    }
}

impl Default for Config {
    fn default() -> (config: Config)
        ensures
            config.source@ == "."@,
            config.target@ == "app.neu"@,
            config.inner_size == Some(WindowSize::Medium),
            config.min_inner_size is None,
            config.max_inner_size is None,
            config.resizable,
            !config.fullscreen,
            config.title@ == ""@,
            !config.maximized,
            config.visible,
            !config.transparent,
            config.decorations,
            !config.always_on_top,
            config.icon is None,
            !config.spa,
            config.url matches Some(url) && url@ == "/index.html"@,
            config.html is None,
            config.initialization_script is None,
    {
        Config {
            source: String::from_str("."),
            target: String::from_str("app.neu"),
            inner_size: Some(WindowSize::Medium),
            min_inner_size: None,
            max_inner_size: None,
            resizable: true,
            fullscreen: false,
            title: String::from_str(""),
            maximized: false,
            visible: true,
            transparent: false,
            decorations: true,
            always_on_top: false,
            icon: None,
            spa: false,
            url: Some(String::from_str("/index.html")),
            html: None,
            initialization_script: None,
        }
    }
}

impl Config {
    /// The window record that this configuration asks for. `icon` is what
    /// was decoded from the file that the configuration names as its icon;
    /// it is left out where the configuration names none.
    pub open spec fn window_attr_spec(self, icon: Option<Icon>) -> WindowAttr {
        WindowAttr {
            inner_size: self.inner_size,
            min_inner_size: self.min_inner_size,
            max_inner_size: self.max_inner_size,
            position: None,
            resizable: self.resizable,
            fullscreen: self.fullscreen,
            title: self.title,
            maximized: self.maximized,
            visible: self.visible,
            transparent: self.transparent,
            decorations: self.decorations,
            always_on_top: self.always_on_top,
            icon: if self.icon is Some {
                icon
            } else {
                None
            },
        }
    }

    /// The web view record that this configuration asks for. `html` and
    /// `initialization_script` are what was read from the files that the
    /// configuration names; each is left out where the configuration names
    /// no file for it.
    pub open spec fn webview_attr_spec(
        self,
        html: Option<String>,
        initialization_script: Option<String>,
    ) -> WebViewAttr {
        WebViewAttr {
            visible: self.visible,
            transparent: self.transparent,
            spa: self.spa,
            url: self.url,
            html: if self.html is Some {
                html
            } else {
                None
            },
            initialization_script: if self.initialization_script is Some {
                initialization_script
            } else {
                None
            },
        }
    }

    /// Builds the window record: the configuration's own settings, no
    /// position, and `icon` where the configuration names an icon file.
    pub fn window_attr(&self, icon: Option<Icon>) -> (attr: WindowAttr)
        ensures
            attr == self.window_attr_spec(icon),
    {
        WindowAttr {
            inner_size: self.inner_size,
            min_inner_size: self.min_inner_size,
            max_inner_size: self.max_inner_size,
            position: None,
            resizable: self.resizable,
            fullscreen: self.fullscreen,
            title: self.title.clone(),
            maximized: self.maximized,
            visible: self.visible,
            transparent: self.transparent,
            decorations: self.decorations,
            always_on_top: self.always_on_top,
            icon: match &self.icon {
                Some(_) => icon,
                None => None,
            },
        }
    }

    /// Builds the web view record: the configuration's own settings, and
    /// the texts read from the files that it names.
    pub fn webview_attr(
        &self,
        html: Option<String>,
        initialization_script: Option<String>,
    ) -> (attr: WebViewAttr)
        ensures
            attr == self.webview_attr_spec(html, initialization_script),
    {
        WebViewAttr {
            visible: self.visible,
            transparent: self.transparent,
            spa: self.spa,
            url: copy_of(&self.url),
            html: match &self.html {
                Some(_) => html,
                None => None,
            },
            initialization_script: match &self.initialization_script {
                Some(_) => initialization_script,
                None => None,
            },
        }
    }
}

} // verus!
