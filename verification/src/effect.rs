//! What a command asks the surrounding driver to do, and the session data the
//! library decides from.
//!
//! Every builtin and the dispatcher return an [`Effect`]: a description of the
//! one observable action the driver must perform. The driver carries out the
//! action (printing, changing directory, spawning, exiting) and owns all
//! input/output; the decision of which action to take is made and proved here.

use vstd::prelude::*;

verus! {

/// The action a command asks the driver to perform.
#[derive(Debug, Clone, PartialEq, Eq)]
pub enum Effect {
    /// Do nothing and read the next line.
    Silent,
    /// Write this line to standard output, followed by a newline.
    Print(String),
    /// Move the session to this directory if it exists; the driver reports
    /// back through [`crate::command::Cd::outcome`].
    ChangeDir(String),
    /// Terminate the shell with exit code 0.
    Exit,
    /// Terminate the shell reporting this unrecoverable error.
    Abort(String),
    /// Run the executable at this path with these arguments and wait for it.
    Spawn(String, Vec<String>),
}

/// The mathematical value of an [`Effect`].
pub ghost enum EffectView {
    Silent,
    Print(Seq<char>),
    ChangeDir(Seq<char>),
    Exit,
    Abort(Seq<char>),
    Spawn(Seq<char>, Seq<Seq<char>>),
}

impl View for Effect {
    type V = EffectView;

    open spec fn view(&self) -> EffectView {
        match self {
            Effect::Silent => EffectView::Silent,
            Effect::Print(s) => EffectView::Print(s@),
            Effect::ChangeDir(s) => EffectView::ChangeDir(s@),
            Effect::Exit => EffectView::Exit,
            Effect::Abort(s) => EffectView::Abort(s@),
            Effect::Spawn(p, args) => EffectView::Spawn(p@, args.deep_view()),
        }
    }
}

/// The session data commands decide from: the home directory (if the
/// environment provides one), the authoritative working directory, and the
/// current contents of each search-path directory, in search-path order.
pub struct ShellEnv {
    pub home: Option<String>,
    pub cwd: String,
    pub listings: Vec<Vec<String>>,
}

/// The mathematical value of a [`ShellEnv`].
pub ghost struct EnvView {
    pub home: Option<Seq<char>>,
    pub cwd: Seq<char>,
    pub listings: Seq<Seq<Seq<char>>>,
}

impl View for ShellEnv {
    type V = EnvView;

    open spec fn view(&self) -> EnvView {
        EnvView { home: self.home.deep_view(), cwd: self.cwd@, listings: self.listings.deep_view() }
    }
}

} // verus!
