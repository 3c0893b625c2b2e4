//! The configuration model: an activation target and an ordered list of
//! trigger characters with their expansions.

use vstd::prelude::*;

verus! {

/// One trigger character and the text it expands into.
#[derive(Debug, PartialEq, Eq)]
pub struct TextShortcut {
    pub trigger: char,
    pub text: String,
}

/// The mathematical value of a [`TextShortcut`].
pub struct ShortcutView {
    pub trigger: char,
    pub text: Seq<char>,
}

impl View for TextShortcut {
    type V = ShortcutView;

    open spec fn view(&self) -> ShortcutView {
        ShortcutView { trigger: self.trigger, text: self.text@ }
    }
}

impl Clone for TextShortcut {
    fn clone(&self) -> (copy: TextShortcut)
        ensures
            copy@ == self@,
    {
        TextShortcut { trigger: self.trigger, text: self.text.clone() }
    }
}

/// The values of a list of shortcuts, in the list's order.
pub open spec fn shortcut_views(shortcuts: Seq<TextShortcut>) -> Seq<ShortcutView> {
    Seq::new(shortcuts.len(), |i: int| shortcuts[i]@)
}

/// Why a configuration could not be loaded.
#[derive(Debug, Clone, Copy, PartialEq, Eq, Structural)]
pub enum ConfigError {
    /// The storage location could not be read or written.
    Io,
    /// Stored data exists but does not follow the schema.
    Parse,
}

/// The mathematical value of a [`Config`].
pub struct ConfigView {
    pub activation_target: Seq<char>,
    pub shortcuts: Seq<ShortcutView>,
}

impl ConfigView {
    /// A configuration is valid when its activation target is not empty.
    /// Trigger characters may repeat.
    pub open spec fn valid(self) -> bool {
        self.activation_target.len() > 0
    }

    /// The text that `c` expands into, if any shortcut has `c` as its trigger.
    pub open spec fn expansion(self, c: char) -> Option<Seq<char>> {
        first_expansion(self.shortcuts, c)
    }
}

/// The text of the first shortcut in `shortcuts` whose trigger is `c`.
pub open spec fn first_expansion(shortcuts: Seq<ShortcutView>, c: char) -> Option<Seq<char>>
    decreases shortcuts.len(),
{
    if shortcuts.len() == 0 {
        None
    } else if shortcuts[0].trigger == c {
        Some(shortcuts[0].text)
    } else {
        first_expansion(shortcuts.drop_first(), c)
    }
}

/// Shortcuts that do not have `c` as their trigger can be dropped from the
/// front of the list without changing what `c` expands into.
pub proof fn lemma_skip_other_triggers(shortcuts: Seq<ShortcutView>, c: char, n: int)
    requires
        0 <= n <= shortcuts.len(),
        forall|k: int| 0 <= k < n ==> shortcuts[k].trigger != c,
    ensures
        first_expansion(shortcuts, c) == first_expansion(shortcuts.skip(n), c),
    decreases n,
{
    if n == 0 {
        assert(shortcuts.skip(0) =~= shortcuts);
    } else {
        let rest = shortcuts.drop_first();
        lemma_skip_other_triggers(rest, c, n - 1);
        assert(rest.skip(n - 1) =~= shortcuts.skip(n));
    }
}

/// First match wins: where several shortcuts share the trigger `c`, `c`
/// expands into the text of the one that comes first in the list, whatever
/// the later ones hold.
pub proof fn first_match_wins(shortcuts: Seq<ShortcutView>, c: char, first: int)
    requires
        0 <= first < shortcuts.len(),
        shortcuts[first].trigger == c,
        forall|k: int| 0 <= k < first ==> shortcuts[k].trigger != c,
    ensures
        first_expansion(shortcuts, c) == Some(shortcuts[first].text),
{
    lemma_skip_other_triggers(shortcuts, c, first);
}

/// A character that is no shortcut's trigger expands into nothing.
pub proof fn absent_trigger_expands_to_nothing(shortcuts: Seq<ShortcutView>, c: char)
    requires
        forall|k: int| 0 <= k < shortcuts.len() ==> shortcuts[k].trigger != c,
    ensures
        first_expansion(shortcuts, c) is None,
{
    lemma_skip_other_triggers(shortcuts, c, shortcuts.len() as int);
}

/// A character expands into some text exactly when a shortcut has it as its
/// trigger, and that text belongs to a shortcut with no match before it.
pub proof fn expansion_is_first_match(shortcuts: Seq<ShortcutView>, c: char)
    ensures
        first_expansion(shortcuts, c) is Some <==> exists|k: int|
            0 <= k < shortcuts.len() && #[trigger] shortcuts[k].trigger == c,
        first_expansion(shortcuts, c) is Some ==> exists|first: int|
            0 <= first < shortcuts.len() && #[trigger] shortcuts[first].trigger == c
                && first_expansion(shortcuts, c) == Some(shortcuts[first].text)
                && forall|k: int| 0 <= k < first ==> shortcuts[k].trigger != c,
    decreases shortcuts.len(),
{
    if shortcuts.len() == 0 {
    } else if shortcuts[0].trigger == c {
    } else {
        let rest = shortcuts.drop_first();
        expansion_is_first_match(rest, c);
        if first_expansion(rest, c) is Some {
            let first = choose|first: int|
                0 <= first < rest.len() && #[trigger] rest[first].trigger == c && first_expansion(
                    rest,
                    c,
                ) == Some(rest[first].text) && forall|k: int|
                    0 <= k < first ==> rest[k].trigger != c;
            assert forall|k: int| 0 <= k < first + 1 implies shortcuts[k].trigger != c by {
                if k > 0 {
                    assert(shortcuts[k] == rest[k - 1]);
                }
            }
        } else {
            assert forall|k: int| 0 <= k < shortcuts.len() implies shortcuts[k].trigger != c by {
                if k > 0 {
                    assert(rest[k - 1].trigger != c);
                }
            }
        }
    }
}

/// The mapping rules of one run: the resource that the activation key opens,
/// and the shortcuts in declaration order. A value of this type always has a
/// non-empty activation target.
#[derive(Debug, PartialEq, Eq)]
pub struct Config {
    activation_target: String,
    shortcuts: Vec<TextShortcut>,
}

impl View for Config {
    type V = ConfigView;

    closed spec fn view(&self) -> ConfigView {
        ConfigView {
            activation_target: self.activation_target@,
            shortcuts: shortcut_views(self.shortcuts@),
        }
    }
}

/// The built-in configuration: an illustrative target and two example shortcuts.
pub open spec fn default_config() -> ConfigView {
    ConfigView {
        activation_target: "https://www.google.com"@,
        shortcuts: seq![
            ShortcutView { trigger: 'h', text: "Hello, World!"@ },
            ShortcutView { trigger: 't', text: "Thank you very much"@ },
        ],
    }
}

impl Config {
    #[verifier::type_invariant]
    spec fn target_present(&self) -> bool {
        self.activation_target@.len() > 0
    }

    /// Builds a configuration from its parts. An empty activation target
    /// violates the schema.
    pub fn new(activation_target: String, shortcuts: Vec<TextShortcut>) -> (r: Result<
        Config,
        ConfigError,
    >)
        ensures
            activation_target@.len() > 0 ==> r is Ok && r->Ok_0@ == (ConfigView {
                activation_target: activation_target@,
                shortcuts: shortcut_views(shortcuts@),
            }),
            activation_target@.len() == 0 ==> r == Err::<Config, ConfigError>(ConfigError::Parse),
    {
        if activation_target.as_str().is_empty() {
            Err(ConfigError::Parse)
        } else {
            Ok(Config { activation_target, shortcuts })
        }
    }

    /// Takes the configuration apart into its activation target and its
    /// shortcuts.
    pub fn into_parts(self) -> (parts: (String, Vec<TextShortcut>))
        ensures
            parts.0@ == self@.activation_target,
            shortcut_views(parts.1@) == self@.shortcuts,
            self@.valid(),
    {
        proof {
            use_type_invariant(&self);
        }
        (self.activation_target, self.shortcuts)
    }

    /// The resource that the activation key opens.
    pub fn activation_target(&self) -> (target: &String)
        ensures
            target@ == self@.activation_target,
            self@.valid(),
    {
        proof {
            use_type_invariant(self);
        }
        &self.activation_target
    }

    /// The text that `c` expands into: that of the first shortcut, in
    /// declaration order, whose trigger is `c`, or nothing if there is none.
    pub fn expansion(&self, c: char) -> (text: Option<&String>)
        ensures
            match text {
                Some(t) => self@.expansion(c) == Some(t@),
                None => self@.expansion(c) is None,
            },
    {
        let ghost views = shortcut_views(self.shortcuts@);
        let mut i: usize = 0;
        while i < self.shortcuts.len()
            invariant
                i <= self.shortcuts.len(),
                views == shortcut_views(self.shortcuts@),
                forall|k: int| 0 <= k < i ==> views[k].trigger != c,
            decreases self.shortcuts.len() - i,
        {
            if self.shortcuts[i].trigger == c {
                proof {
                    first_match_wins(views, c, i as int);
                }
                return Some(&self.shortcuts[i].text);
            }
            i += 1;
        }
        proof {
            absent_trigger_expands_to_nothing(views, c);
        }
        None
    }

    /// The shortcuts, in declaration order.
    pub fn shortcuts(&self) -> (shortcuts: &Vec<TextShortcut>)
        ensures
            shortcut_views(shortcuts@) == self@.shortcuts,
    {
        &self.shortcuts
    }
}

impl Clone for Config {
    fn clone(&self) -> (copy: Config)
        ensures
            copy@ == self@,
    {
        proof {
            use_type_invariant(self);
        }
        let mut shortcuts: Vec<TextShortcut> = Vec::new();
        let mut i: usize = 0;
        while i < self.shortcuts.len()
            invariant
                i <= self.shortcuts.len(),
                shortcuts.len() == i,
                forall|j: int| 0 <= j < i ==> shortcuts[j]@ == self.shortcuts[j]@,
            decreases self.shortcuts.len() - i,
        {
            shortcuts.push(self.shortcuts[i].clone());
            i += 1;
        }
        let copy = Config { activation_target: self.activation_target.clone(), shortcuts };
        assert(copy@.shortcuts =~= self@.shortcuts);
        copy
    }
}

impl Default for Config {
    /// The built-in configuration.
    fn default() -> (config: Config)
        ensures
            config@ == default_config(),
    {
        proof {
            reveal_strlit("https://www.google.com");
        }
        let mut shortcuts: Vec<TextShortcut> = Vec::new();
        shortcuts.push(TextShortcut { trigger: 'h', text: String::from_str("Hello, World!") });
        shortcuts.push(TextShortcut { trigger: 't', text: String::from_str("Thank you very much") });
        let config = Config { activation_target: String::from_str("https://www.google.com"), shortcuts };
        assert(config@.shortcuts =~= default_config().shortcuts);
        config
    }
}

} // verus!
