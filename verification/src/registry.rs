//! The table of triggers: which environment or command asks for which package.

use vstd::prelude::*;

verus! {

/// What a trigger is: a literal token and the package that its presence asks for.
pub struct TriggerView {
    pub token: Seq<char>,
    pub package: Seq<char>,
}

/// A literal token (an environment name or a command) and the package it asks for.
#[derive(Debug)]
pub struct Trigger {
    pub token: String,
    pub package: String,
}

impl View for Trigger {
    type V = TriggerView;

    open spec fn view(&self) -> TriggerView {
        TriggerView { token: self.token@, package: self.package@ }
    }
}

/// What a registry is: its three categories, each in evaluation order.
pub struct RegistryView {
    pub environments: Seq<TriggerView>,
    pub commands: Seq<TriggerView>,
    pub inline_commands: Seq<TriggerView>,
}

/// The three categories of triggers. It is built once and only read afterwards.
#[derive(Debug)]
pub struct Registry {
    /// Keyed by environment name; matched in the begin-form, starred or not.
    pub environments: Vec<Trigger>,
    /// Block-level commands, matched literally.
    pub commands: Vec<Trigger>,
    /// Commands that may stand inside math mode, matched literally.
    pub inline_commands: Vec<Trigger>,
}

/// The views of a category's triggers, in order.
pub open spec fn trigger_views(triggers: Seq<Trigger>) -> Seq<TriggerView> {
    Seq::new(triggers.len(), |i: int| triggers[i]@)
}

impl View for Registry {
    type V = RegistryView;

    open spec fn view(&self) -> RegistryView {
        RegistryView {
            environments: trigger_views(self.environments@),
            commands: trigger_views(self.commands@),
            inline_commands: trigger_views(self.inline_commands@),
        }
    }
}

/// The environments of the standard table.
pub open spec fn standard_environments() -> Seq<TriggerView> {
    seq![
        TriggerView { token: "eqnarray"@, package: "eqnarray"@ },
        TriggerView { token: "tikzcd"@, package: "tikz-cd"@ },
        TriggerView { token: "tikzpicture"@, package: "tikz"@ },
        TriggerView { token: "circuitikz"@, package: "circuitikz"@ },
        TriggerView { token: "sequencediagram"@, package: "pgf-umlsd"@ },
        TriggerView { token: "prooftree"@, package: "bussproofs"@ },
        TriggerView { token: "align"@, package: ""@ },
    ]
}

/// The block-level commands of the standard table.
pub open spec fn standard_commands() -> Seq<TriggerView> {
    seq![
        TriggerView { token: "\\addplot"@, package: "pgfplots"@ },
        TriggerView { token: "\\smartdiagram"@, package: "smartdiagram"@ },
        TriggerView { token: "\\DisplayProof"@, package: "bussproofs"@ },
        TriggerView { token: "\\tdplotsetmaincoords"@, package: "tikz-3dplot"@ },
    ]
}

/// The inline commands of the standard table.
pub open spec fn standard_inline_commands() -> Seq<TriggerView> {
    seq![
        TriggerView { token: "\\color"@, package: "xcolor"@ },
        TriggerView { token: "\\textcolor"@, package: "xcolor"@ },
        TriggerView { token: "\\colorbox"@, package: "xcolor"@ },
        TriggerView { token: "\\pagecolor"@, package: "xcolor"@ },
    ]
}

/// The standard table.
pub open spec fn standard_registry() -> RegistryView {
    RegistryView {
        environments: standard_environments(),
        commands: standard_commands(),
        inline_commands: standard_inline_commands(),
    }
}

impl Trigger {
    /// A trigger from its token and its package name.
    pub fn new(token: &str, package: &str) -> (t: Trigger)
        ensures
            t@ == (TriggerView { token: token@, package: package@ }),
    {
        Trigger { token: String::from_str(token), package: String::from_str(package) }
    }
}

impl Registry {
    /// The standard table.
    pub fn standard() -> (r: Registry)
        ensures
            r@ == standard_registry(),
    {
        let mut environments: Vec<Trigger> = Vec::new();
        environments.push(Trigger::new("eqnarray", "eqnarray"));
        environments.push(Trigger::new("tikzcd", "tikz-cd"));
        environments.push(Trigger::new("tikzpicture", "tikz"));
        environments.push(Trigger::new("circuitikz", "circuitikz"));
        environments.push(Trigger::new("sequencediagram", "pgf-umlsd"));
        environments.push(Trigger::new("prooftree", "bussproofs"));
        environments.push(Trigger::new("align", ""));
        let mut commands: Vec<Trigger> = Vec::new();
        commands.push(Trigger::new("\\addplot", "pgfplots"));
        commands.push(Trigger::new("\\smartdiagram", "smartdiagram"));
        commands.push(Trigger::new("\\DisplayProof", "bussproofs"));
        commands.push(Trigger::new("\\tdplotsetmaincoords", "tikz-3dplot"));
        let mut inline_commands: Vec<Trigger> = Vec::new();
        inline_commands.push(Trigger::new("\\color", "xcolor"));
        inline_commands.push(Trigger::new("\\textcolor", "xcolor"));
        inline_commands.push(Trigger::new("\\colorbox", "xcolor"));
        inline_commands.push(Trigger::new("\\pagecolor", "xcolor"));
        assert(trigger_views(environments@) =~= standard_environments());
        assert(trigger_views(commands@) =~= standard_commands());
        assert(trigger_views(inline_commands@) =~= standard_inline_commands());
        Registry { environments, commands, inline_commands }
    }
}

} // verus!
