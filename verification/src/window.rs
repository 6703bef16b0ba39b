//! The window that the entry script asks for.

use vstd::prelude::*;
use vstd::string::StringExecFns;
use crate::error::EngineError;
use crate::lua;
use crate::marshal::of_runtime;
use crate::marshal::snapshot;
use crate::script_manager::load_error;
use crate::variant::Dynamic;
use crate::variant::Variant;
use crate::vec2::Vec2;

verus! {

/// Title, size and mode of the window.
#[derive(Debug, PartialEq)]
pub struct WindowConfig {
    pub title: String,
    pub size: Vec2,
    pub fullscreen: bool,
    pub resizable: bool,
}

/// The model of a window configuration.
pub struct WindowConfigView {
    pub title: Seq<char>,
    pub size: Vec2,
    pub fullscreen: bool,
    pub resizable: bool,
}

impl View for WindowConfig {
    type V = WindowConfigView;

    open spec fn view(&self) -> WindowConfigView {
        WindowConfigView {
            title: self.title@,
            size: self.size,
            fullscreen: self.fullscreen,
            resizable: self.resizable,
        }
    }
}

/// The configuration that the four globals of an entry script describe.
///
/// The title is the text or the number under `Title` as the runtime writes it, and
/// `Default Window` where there is neither.  The size is what `Size` describes, and 500
/// by 500 where it describes none.  The window is fullscreen, or resizable, where the
/// global of that name counts as true in the runtime: where it is anything but nothing
/// and `false`.  A global that cannot be read counts as not fullscreen and as
/// resizable.
pub open spec fn configured(
    title: Option<Seq<char>>,
    size: Dynamic,
    fullscreen: Option<Dynamic>,
    resizable: Option<Dynamic>,
) -> WindowConfigView {
    WindowConfigView {
        title: match title {
            Some(t) => t,
            None => "Default Window"@,
        },
        size: match Vec2::decoded(size) {
            Ok(v) => v,
            Err(_) => Vec2 { x: 500, y: 500 },
        },
        fullscreen: match fullscreen {
            Some(v) => v.truthy(),
            None => false,
        },
        resizable: match resizable {
            Some(v) => v.truthy(),
            None => true,
        },
    }
}

/// The model of a value that may be missing.
pub open spec fn seen(v: Option<Variant>) -> Option<Dynamic> {
    match v {
        Some(v) => Some(v@),
        None => None,
    }
}

impl WindowConfig {
    /// The configuration that the globals `Title`, `Size`, `Fullscreen` and `Resizable`
    /// of an entry script describe, see [`configured`]: the title as the runtime reads it
    /// as a text, a copy of the size, and copies of the two others where they could be
    /// read.
    pub fn from_globals(
        title: Option<String>,
        size: &Variant,
        fullscreen: Option<Variant>,
        resizable: Option<Variant>,
    ) -> (config: WindowConfig)
        ensures
            config@ == configured(
                match title {
                    Some(t) => Some(t@),
                    None => None,
                },
                size@,
                seen(fullscreen),
                seen(resizable),
            ),
    {
        WindowConfig {
            title: match title {
                Some(t) => t,
                None => String::from_str("Default Window"),
            },
            size: match Vec2::decode(size) {
                Ok(v) => v,
                Err(_) => Vec2::new(500, 500),
            },
            fullscreen: match fullscreen {
                Some(v) => v.is_truthy(),
                None => false,
            },
            resizable: match resizable {
                Some(v) => v.is_truthy(),
                None => true,
            },
        }
    }

    /// The configuration that the entry script `source` asks for: runs the script in a
    /// runtime of its own and reads its globals, see [`WindowConfig::from_globals`].
    ///
    /// Fails where the script does not compile or its top level raises an error.
    pub fn load(source: String) -> (r: Result<WindowConfig, EngineError>)
        ensures
            r is Err ==> (r->Err_0 == EngineError::ScriptCompile || r->Err_0
                == EngineError::ScriptRuntime),
    {
        let state = lua::fresh_state();
        let table = lua::globals(&state);
        let compiled = match lua::compiled(&state, source, &table, "entry") {
            Ok(f) => f,
            Err(e) => {
                return Err(load_error(lua::is_syntax_error(&e)));
            },
        };
        match lua::call(&state, &compiled, Vec::new()) {
            Ok(_) => {},
            Err(e) => {
                return Err(load_error(lua::is_syntax_error(&e)));
            },
        }
        let title = lua::get_text(&state, &table, "Title");
        let size = match Self::global(&state, &table, "Size") {
            Some(v) => v,
            None => Variant::Nil,
        };
        let fullscreen = Self::global(&state, &table, "Fullscreen");
        let resizable = Self::global(&state, &table, "Resizable");
        Ok(WindowConfig::from_globals(title, &size, fullscreen, resizable))
    }

    /// A copy of the global `name`, two levels deep; none where it cannot be read.
    fn global(lua: &mlua::Lua, table: &mlua::Table, name: &str) -> (v: Option<Variant>)
        requires
            crate::lua::table_home(*table) == crate::lua::runtime_id(*lua),
        ensures
            v is Some ==> v->0@.nesting() <= 2 && of_runtime(v->0@),
    {
        match lua::get(lua, table, name) {
            Ok(v) => Some(snapshot(lua, &v, 2)),
            Err(_) => None,
        }
    }
}

} // verus!
