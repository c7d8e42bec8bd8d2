//! Configuration layers: decoding a bounded file into settings, and loading
//! the layers of an invocation.

use crate::cli::failure::{failure_view, invalid, late_refusal, timely, Failure};
use crate::score::Score;
use crate::tally::lemma_filter_step;
use crate::text;
use crate::text::signed_numeral;
use crate::toml_value;
use crate::toml_value::{
    entries_of, items_of, parsed_toml, toml_of, Toml, TomlNode,
};
use toml::Value;
use vstd::prelude::*;
use vstd::string::*;
use vstd::utf8::{decode_utf8, encode_utf8, valid_utf8};

verus! {

/// A setting as it was written.
#[derive(Clone, Debug, PartialEq, Eq)]
pub enum RawValue {
    Bool(bool),
    Integer(i64),
    Float(Score),
    Text(String),
    TextList(Vec<String>),
}

/// What a raw value says.
#[verifier::ext_equal]
pub enum RawView {
    Bool(bool),
    Integer(i64),
    Float(Score),
    Text(Seq<char>),
    TextList(Seq<Seq<char>>),
}

impl View for RawValue {
    type V = RawView;

    open spec fn view(&self) -> RawView {
        match self {
            RawValue::Bool(b) => RawView::Bool(*b),
            RawValue::Integer(n) => RawView::Integer(*n),
            RawValue::Float(x) => RawView::Float(*x),
            RawValue::Text(s) => RawView::Text(s@),
            RawValue::TextList(list) => RawView::TextList(text::views(list@)),
        }
    }
}

/// What a list of settings says.
pub open spec fn setting_views(entries: Seq<(String, RawValue)>) -> Seq<(Seq<char>, RawView)> {
    Seq::new(entries.len(), |i: int| (entries[i].0@, entries[i].1@))
}

/// The bounds of a configuration file.
#[derive(Clone, Copy, Debug, PartialEq, Eq, Structural)]
pub struct ConfigLimits {
    pub file_bytes: usize,
    /// Of a name together with the prefix it stands under.
    pub key_bytes: usize,
    pub list_items: usize,
    pub layer_entries: usize,
}

/// How deep tables may nest.
pub const MAX_TABLE_DEPTH: usize = 32;

/// Whether a text holds a full stop.
pub open spec fn has_dot(s: Seq<char>) -> bool {
    exists|i: int| 0 <= i < s.len() && #[trigger] s[i] == '.'
}

/// The bytes of a text.
pub open spec fn byte_len(s: Seq<char>) -> nat {
    encode_utf8(s).len()
}

/// Whether a name is refused under a prefix.
pub open spec fn name_refused(name: Seq<char>, prefix: Seq<char>, limits: ConfigLimits) -> bool {
    has_dot(name) || byte_len(name) + byte_len(prefix) > limits.key_bytes
}

/// The key of a name under a prefix.
pub open spec fn key_under(prefix: Seq<char>, name: Seq<char>) -> Seq<char> {
    if prefix.len() == 0 {
        name
    } else {
        prefix + "."@ + name
    }
}

/// The texts of a list, where it holds nothing else.
pub open spec fn texts_of(items: Seq<Toml>) -> Option<Seq<Seq<char>>> {
    if forall|i: int| 0 <= i < items.len() ==> (#[trigger] items[i] is Text) {
        Some(Seq::new(items.len(), |i: int| items[i]->Text_0))
    } else {
        None
    }
}

/// The setting that a value is, where it is one: a table, a date or a list of
/// anything but texts is none.
pub open spec fn raw_of(value: Toml, limits: ConfigLimits) -> Option<RawView> {
    match value {
        Toml::Boolean(b) => Some(RawView::Bool(b)),
        Toml::Integer(n) => Some(RawView::Integer(n)),
        Toml::Float(bits) => Some(RawView::Float(Score { bits })),
        Toml::Text(s) => Some(RawView::Text(s)),
        Toml::Array(items) => if items.len() > limits.list_items {
            None
        } else {
            match texts_of(items) {
                Some(texts) => Some(RawView::TextList(texts)),
                None => None,
            }
        },
        _ => None,
    }
}

/// The settings of a table from an entry on, behind those found so far: each
/// under its dotted name, in order. `None` where a bound is exceeded or a value
/// is no setting.
pub open spec fn flattened(
    table: Seq<(Seq<char>, Toml)>,
    from: int,
    prefix: Seq<char>,
    depth: int,
    limits: ConfigLimits,
    found: Seq<(Seq<char>, RawView)>,
) -> Option<Seq<(Seq<char>, RawView)>>
    decreases MAX_TABLE_DEPTH + 1 - depth, table.len() - from,
{
    if depth > MAX_TABLE_DEPTH || from < 0 {
        None
    } else if from >= table.len() {
        Some(found)
    } else {
        let (name, value) = table[from];
        let key = key_under(prefix, name);
        if name_refused(name, prefix, limits) {
            None
        } else if value is Table && value->Table_0.len() > 0 {
            match flattened(value->Table_0, 0, key, depth + 1, limits, found) {
                Some(more) => flattened(table, from + 1, prefix, depth, limits, more),
                None => None,
            }
        } else {
            match raw_of(value, limits) {
                Some(raw) => if found.len() == limits.layer_entries {
                    None
                } else {
                    flattened(table, from + 1, prefix, depth, limits, found.push((key, raw)))
                },
                None => None,
            }
        }
    }
}

/// The settings that a configuration text holds.
pub open spec fn decoded(text: Seq<char>, limits: ConfigLimits) -> Option<
    Seq<(Seq<char>, RawView)>,
> {
    if byte_len(text) > limits.file_bytes {
        None
    } else {
        match parsed_toml(text) {
            Some(table) => flattened(table, 0, ""@, 0, limits, Seq::empty()),
            None => None,
        }
    }
}

proof fn lemma_flattened_is_bounded(
    table: Seq<(Seq<char>, Toml)>,
    from: int,
    prefix: Seq<char>,
    depth: int,
    limits: ConfigLimits,
    found: Seq<(Seq<char>, RawView)>,
)
    requires
        found.len() <= limits.layer_entries,
    ensures
        flattened(table, from, prefix, depth, limits, found) is Some ==> flattened(
            table,
            from,
            prefix,
            depth,
            limits,
            found,
        )->0.len() <= limits.layer_entries,
    decreases MAX_TABLE_DEPTH + 1 - depth, table.len() - from,
{
    if depth <= MAX_TABLE_DEPTH && 0 <= from < table.len() {
        let (name, value) = table[from];
        let key = key_under(prefix, name);
        if value is Table && value->Table_0.len() > 0 {
            lemma_flattened_is_bounded(value->Table_0, 0, key, depth + 1, limits, found);
            if let Some(more) = flattened(value->Table_0, 0, key, depth + 1, limits, found) {
                if more.len() <= limits.layer_entries {
                    lemma_flattened_is_bounded(table, from + 1, prefix, depth, limits, more);
                }
            }
        } else if let Some(raw) = raw_of(value, limits) {
            if found.len() < limits.layer_entries {
                lemma_flattened_is_bounded(
                    table,
                    from + 1,
                    prefix,
                    depth,
                    limits,
                    found.push((key, raw)),
                );
            }
        }
    }
}

/// A configuration that is decoded holds no more settings than a layer may,
/// and came from no longer a text than a file may be.
pub proof fn lemma_decoded_is_bounded(text: Seq<char>, limits: ConfigLimits)
    requires
        decoded(text, limits) is Some,
    ensures
        decoded(text, limits)->0.len() <= limits.layer_entries,
        byte_len(text) <= limits.file_bytes,
{
    lemma_flattened_is_bounded(parsed_toml(text)->0, 0, ""@, 0, limits, Seq::empty());
}

fn contains_dot(s: &str) -> (r: bool)
    ensures
        r == has_dot(s@),
{
    let chars: Vec<char> = text::chars_of(s);
    let mut i: usize = 0;
    while i < chars.len()
        invariant
            i <= chars@.len(),
            chars@ == s@,
            forall|j: int| 0 <= j < i ==> #[trigger] s@[j] != '.',
        decreases chars@.len() - i,
    {
        if chars[i] == '.' {
            assert(s@[i as int] == '.');
            return true;
        }
        i = i + 1;
    }
    false
}

fn list_texts(items: Vec<Value>) -> (r: Option<Vec<String>>)
    ensures
        texts_of(items_of(items@)) == match r {
            Some(texts) => Some(text::views(texts@)),
            None => None,
        },
{
    let ghost all = items@;
    let ghost held = items_of(items@);
    let mut texts: Vec<String> = Vec::new();
    for item in it: items.into_iter()
        invariant
            it.seq() == all,
            held == items_of(all),
            forall|j: int| 0 <= j < it.index() ==> (#[trigger] held[j] is Text),
            text::views(texts@) =~= Seq::new(it.index() as nat, |j: int| held[j]->Text_0),
    {
        let ghost i = it.index() as int;
        let ghost before = texts@;
        assert(held[i] == toml_of(item));
        match toml_value::open_node(item) {
            TomlNode::Text(s) => {
                texts.push(s);
                assert(text::views(texts@) =~= text::views(before).push(s@));
            },
            _ => {
                assert(!(held[i] is Text));
                return None;
            },
        }
    }
    assert(text::views(texts@) =~= Seq::new(held.len(), |j: int| held[j]->Text_0));
    Some(texts)
}

/// Put the settings of a table behind those found so far.
pub fn flatten_table(
    table: Vec<(String, Value)>,
    prefix: &str,
    depth: usize,
    limits: ConfigLimits,
    found: Vec<(String, RawValue)>,
) -> (r: Option<Vec<(String, RawValue)>>)
    requires
        depth <= MAX_TABLE_DEPTH + 1,
    ensures
        flattened(
            entries_of(table@),
            0,
            prefix@,
            depth as int,
            limits,
            setting_views(found@),
        ) == match r {
            Some(list) => Some(setting_views(list@)),
            None => None,
        },
    decreases MAX_TABLE_DEPTH + 1 - depth,
{
    if depth > MAX_TABLE_DEPTH {
        return None;
    }
    let ghost all = table@;
    let ghost held = entries_of(table@);
    let ghost target = flattened(held, 0, prefix@, depth as int, limits, setting_views(found@));
    let mut entries: Vec<(String, RawValue)> = found;
    for entry in it: table.into_iter()
        invariant
            it.seq() == all,
            held == entries_of(all),
            depth <= MAX_TABLE_DEPTH,
            target == flattened(
                entries_of(table@),
                0,
                prefix@,
                depth as int,
                limits,
                setting_views(found@),
            ),
                target == flattened(
                held,
                it.index() as int,
                prefix@,
                depth as int,
                limits,
                setting_views(entries@),
            ),
    {
        let ghost i = it.index() as int;
        let ghost before = entries@;
        let (name, value): (String, Value) = entry;
        assert(held[i] == (name@, toml_of(value)));
        let name_bytes: usize = name.as_str().as_bytes().len();
        let prefix_bytes: usize = prefix.as_bytes().len();
        if contains_dot(name.as_str()) || name_bytes > limits.key_bytes || prefix_bytes
            > limits.key_bytes - name_bytes {
            return None;
        }
        let mut key: String = name;
        if !prefix.is_empty() {
            let mut dotted: String = prefix.to_owned();
            dotted.append(".");
            dotted.append(key.as_str());
            key = dotted;
        }
        assert(key@ == key_under(prefix@, held[i].0));
        let raw: Option<RawValue> = match toml_value::open_node(value) {
            TomlNode::Table(inner) => {
                assert(entries_of(inner@).len() == inner@.len());
                if inner.len() == 0 {
                    return None;
                }
                match flatten_table(inner, key.as_str(), depth + 1, limits, entries) {
                    Some(more) => {
                        entries = more;
                        None
                    },
                    None => return None,
                }
            },
            TomlNode::Boolean(b) => Some(RawValue::Bool(b)),
            TomlNode::Integer(n) => Some(RawValue::Integer(n)),
            TomlNode::Float(bits) => Some(RawValue::Float(Score { bits })),
            TomlNode::Text(s) => Some(RawValue::Text(s)),
            TomlNode::Array(items) => {
                assert(items_of(items@).len() == items@.len());
                if items.len() > limits.list_items {
                    return None;
                }
                match list_texts(items) {
                    Some(texts) => Some(RawValue::TextList(texts)),
                    None => return None,
                }
            },
            TomlNode::Datetime => return None,
        };
        if let Some(raw) = raw {
            assert(setting_views(entries@).len() == entries@.len());
            if entries.len() == limits.layer_entries {
                return None;
            }
            entries.push((key, raw));
            assert(setting_views(entries@) =~= setting_views(before).push((key@, raw@)));
        }
    }
    Some(entries)
}

/// Decode a configuration text into settings. The parser refuses duplicate
/// keys and table definitions.
pub fn decode_config(text: &str, limits: ConfigLimits) -> (r: Option<Vec<(String, RawValue)>>)
    ensures
        decoded(text@, limits) == match r {
            Some(list) => Some(setting_views(list@)),
            None => None,
        },
{
    if text.as_bytes().len() > limits.file_bytes {
        return None;
    }
    let table: Value = match toml_value::parse(text) {
        Some(table) => table,
        None => return None,
    };
    let none: Vec<(String, RawValue)> = Vec::new();
    proof {
        reveal_strlit("");
        assert(setting_views(none@) =~= Seq::<(Seq<char>, RawView)>::empty());
    }
    match toml_value::open_node(table) {
        TomlNode::Table(entries) => flatten_table(entries, "", 0, limits, none),
        _ => None,
    }
}

/// What reading a configuration file came to.
#[derive(Clone, Debug, PartialEq, Eq)]
pub enum LayerRead {
    /// There is no such root or file.
    Absent,
    RootUnavailable,
    /// It is no bounded authorized regular file.
    Unreadable,
    Bytes(Vec<u8>),
}

/// Whether work was still admitted before a file was opened, after it was
/// read, and after it was decoded.
#[derive(Clone, Copy, Debug, PartialEq, Eq, Structural)]
pub struct LayerTiming {
    pub before: bool,
    pub after_read: bool,
    pub after_decode: bool,
}

/// A file that was read, and when.
#[derive(Clone, Debug, PartialEq, Eq)]
pub struct LayerFile {
    pub read: LayerRead,
    pub timing: LayerTiming,
}

/// What a file decodes to: nothing where there is no file, its settings, or why
/// it is refused.
pub open spec fn layer_decoded(
    layer: Seq<char>,
    read: LayerRead,
    before: bool,
    after_read: bool,
    limits: ConfigLimits,
) -> Result<Option<Seq<(Seq<char>, RawView)>>, (u8, Seq<char>, Seq<char>)> {
    let refuse = |message: Seq<char>|
        Err::<Option<Seq<(Seq<char>, RawView)>>, (u8, Seq<char>, Seq<char>)>(
            (2u8, "invalid-configuration"@, layer + message),
        );
    if !before {
        Err(late_refusal())
    } else {
        match read {
            LayerRead::Absent => Ok(None),
            LayerRead::RootUnavailable => refuse(": configuration root unavailable"@),
            LayerRead::Unreadable => refuse(
                ": configuration must be a bounded authorized regular file"@,
            ),
            LayerRead::Bytes(bytes) => if !after_read {
                Err(late_refusal())
            } else if !valid_utf8(bytes@) {
                refuse(": invalid UTF-8 configuration"@)
            } else {
                match decoded(decode_utf8(bytes@), limits) {
                    None => refuse(": malformed or excessive configuration"@),
                    Some(list) => Ok(Some(list)),
                }
            },
        }
    }
}

/// What a layer comes to: the settings of its file where they were decoded in
/// time, none where there is no file, or why it is refused.
pub open spec fn layer_of(layer: Seq<char>, file: LayerFile, limits: ConfigLimits) -> Result<
    Seq<(Seq<char>, RawView)>,
    (u8, Seq<char>, Seq<char>),
> {
    match layer_decoded(layer, file.read, file.timing.before, file.timing.after_read, limits) {
        Ok(Some(list)) => if file.timing.after_decode {
            Ok(list)
        } else {
            Err(late_refusal())
        },
        Ok(None) => Ok(Seq::empty()),
        Err(refusal) => Err(refusal),
    }
}

/// Whether a result is what a layer comes to.
pub open spec fn layer_is(
    r: Result<Vec<(String, RawValue)>, Failure>,
    outcome: Result<Seq<(Seq<char>, RawView)>, (u8, Seq<char>, Seq<char>)>,
) -> bool {
    match r {
        Ok(list) => outcome is Ok && outcome->Ok_0 == setting_views(list@),
        Err(f) => outcome is Err && outcome->Err_0 == failure_view(f),
    }
}

fn layer_failure(layer: &str, message: &str) -> (r: Failure)
    ensures
        failure_view(r) == (2u8, "invalid-configuration"@, layer@ + message@),
{
    let mut out: String = layer.to_owned();
    out.append(message);
    (2, "invalid-configuration", out)
}

/// Decode the file of a layer. Its settings stand once `admit_layer` has found
/// that they were decoded in time.
pub fn decode_layer(
    layer: &str,
    read: LayerRead,
    before: bool,
    after_read: bool,
    limits: ConfigLimits,
) -> (r: Result<Option<Vec<(String, RawValue)>>, Failure>)
    ensures
        match r {
            Ok(Some(list)) => layer_decoded(layer@, read, before, after_read, limits) == Ok::<
                _,
                (u8, Seq<char>, Seq<char>),
            >(Some(setting_views(list@))),
            Ok(None) => layer_decoded(layer@, read, before, after_read, limits) == Ok::<
                _,
                (u8, Seq<char>, Seq<char>),
            >(None::<Seq<(Seq<char>, RawView)>>),
            Err(f) => layer_decoded(layer@, read, before, after_read, limits) == Err::<
                Option<Seq<(Seq<char>, RawView)>>,
                _,
            >(failure_view(f)),
        },
{
    match timely(before) {
        Ok(_) => {},
        Err(f) => return Err(f),
    }
    let bytes: Vec<u8> = match read {
        LayerRead::Absent => return Ok(None),
        LayerRead::RootUnavailable => return Err(
            layer_failure(layer, ": configuration root unavailable"),
        ),
        LayerRead::Unreadable => return Err(
            layer_failure(layer, ": configuration must be a bounded authorized regular file"),
        ),
        LayerRead::Bytes(bytes) => bytes,
    };
    match timely(after_read) {
        Ok(_) => {},
        Err(f) => return Err(f),
    }
    let body: String = match text::from_utf8(bytes) {
        Some(body) => body,
        None => return Err(layer_failure(layer, ": invalid UTF-8 configuration")),
    };
    proof {
        vstd::utf8::encode_utf8_decode_utf8(body@);
    }
    match decode_config(body.as_str(), limits) {
        Some(entries) => Ok(Some(entries)),
        None => Err(layer_failure(layer, ": malformed or excessive configuration")),
    }
}

/// The settings of a decoded layer, where work was still admitted after it was
/// decoded. A layer without a file has none, and took no time.
pub fn admit_layer(decoded: Option<Vec<(String, RawValue)>>, after_decode: bool) -> (r: Result<
    Vec<(String, RawValue)>,
    Failure,
>)
    ensures
        match decoded {
            Some(list) => if after_decode {
                r == Ok::<_, Failure>(list)
            } else {
                r is Err && failure_view(r->Err_0) == late_refusal()
            },
            None => r is Ok && r->Ok_0@.len() == 0,
        },
{
    match decoded {
        Some(list) => match timely(after_decode) {
            Ok(_) => Ok(list),
            Err(f) => Err(f),
        },
        None => Ok(Vec::new()),
    }
}

/// The settings of a layer.
pub fn read_config(layer: &str, file: LayerFile, limits: ConfigLimits) -> (r: Result<
    Vec<(String, RawValue)>,
    Failure,
>)
    ensures
        layer_is(r, layer_of(layer@, file, limits)),
{
    let decoded: Option<Vec<(String, RawValue)>> = match decode_layer(
        layer,
        file.read,
        file.timing.before,
        file.timing.after_read,
        limits,
    ) {
        Ok(decoded) => decoded,
        Err(f) => return Err(f),
    };
    let admitted: Result<Vec<(String, RawValue)>, Failure> = admit_layer(
        decoded,
        file.timing.after_decode,
    );
    proof {
        if decoded is None {
            assert(setting_views(admitted->Ok_0@) =~= Seq::<(Seq<char>, RawView)>::empty());
        }
    }
    admitted
}

/// The layers of an invocation's configuration.
#[derive(Clone, Debug, PartialEq, Eq)]
pub struct ConfigSources {
    pub cli: Vec<(String, RawValue)>,
    /// Environment variables, names and values as bytes.
    pub environment: Vec<(Vec<u8>, Vec<u8>)>,
    pub trusted_user: Vec<(String, RawValue)>,
    pub project: Vec<(String, RawValue)>,
}

impl ConfigSources {
    /// No setting in any layer.
    pub fn empty() -> (r: ConfigSources)
        ensures
            r.cli@.len() == 0,
            r.environment@.len() == 0,
            r.trusted_user@.len() == 0,
            r.project@.len() == 0,
    {
        ConfigSources {
            cli: Vec::new(),
            environment: Vec::new(),
            trusted_user: Vec::new(),
            project: Vec::new(),
        }
    }
}

/// Fixed invocation paths for bounded initial reads and consequential rereads.
/// The workspace is selected independently, never by a path from session input.
#[derive(Clone, Debug, PartialEq, Eq)]
pub struct ConfigFiles {
    pub workspace: String,
    pub user_root: Option<String>,
}

/// The project's configuration, below the workspace.
pub const PROJECT_CONFIG: &'static str = ".sr/config.toml";

/// The user's configuration, below their root.
pub const USER_CONFIG: &'static str = "sr/config.toml";

/// File layers that were read again.
#[derive(Clone, Debug, PartialEq, Eq)]
pub struct RefreshedLayers {
    pub trusted_user: Vec<(String, RawValue)>,
    pub project: Vec<(String, RawValue)>,
    pub generation: u64,
}

impl ConfigFiles {
    pub fn new(workspace: String, user_root: Option<String>) -> (r: ConfigFiles)
        ensures
            r.workspace == workspace,
            r.user_root == user_root,
    {
        ConfigFiles { workspace, user_root }
    }

    /// What the trusted-user layer comes to: nothing without a user root.
    pub open spec fn user_layer(self, user: LayerFile, limits: ConfigLimits) -> Result<
        Seq<(Seq<char>, RawView)>,
        (u8, Seq<char>, Seq<char>),
    > {
        if self.user_root is Some {
            layer_of("trusted-user"@, user, limits)
        } else {
            Ok(Seq::empty())
        }
    }

    fn read_user(&self, user: LayerFile, limits: ConfigLimits) -> (r: Result<
        Vec<(String, RawValue)>,
        Failure,
    >)
        ensures
            layer_is(r, self.user_layer(user, limits)),
    {
        if self.user_root.is_some() {
            read_config("trusted-user", user, limits)
        } else {
            let none: Vec<(String, RawValue)> = Vec::new();
            assert(setting_views(none@) =~= Seq::<(Seq<char>, RawView)>::empty());
            Ok(none)
        }
    }

    /// Whether a result is what loading the layers of a configuration comes to.
    pub open spec fn loaded(
        self,
        sources: ConfigSources,
        user: LayerFile,
        project: LayerFile,
        limits: ConfigLimits,
        r: Result<ConfigSources, Failure>,
    ) -> bool {
        &&& r is Ok <==> self.user_layer(user, limits) is Ok && layer_of(
            "project"@,
            project,
            limits,
        ) is Ok
        &&& r is Ok ==> {
            &&& r->Ok_0.cli == sources.cli
            &&& r->Ok_0.environment == sources.environment
            &&& setting_views(r->Ok_0.trusted_user@) == self.user_layer(user, limits)->Ok_0
            &&& setting_views(r->Ok_0.project@) == layer_of("project"@, project, limits)->Ok_0
        }
        &&& r is Err ==> failure_view(r->Err_0) == if self.user_layer(user, limits) is Err {
            self.user_layer(user, limits)->Err_0
        } else {
            layer_of("project"@, project, limits)->Err_0
        }
    }

    /// Fill the file layers of an invocation. The user's layer is read first,
    /// and its refusal stands before the project's.
    pub fn load(
        &self,
        sources: ConfigSources,
        user: LayerFile,
        project: LayerFile,
        limits: ConfigLimits,
    ) -> (r: Result<ConfigSources, Failure>)
        ensures
            self.loaded(sources, user, project, limits, r),
    {
        let trusted_user: Vec<(String, RawValue)> = match self.read_user(user, limits) {
            Ok(entries) => entries,
            Err(f) => return Err(f),
        };
        let project: Vec<(String, RawValue)> = match read_config("project", project, limits) {
            Ok(entries) => entries,
            Err(f) => return Err(f),
        };
        Ok(
            ConfigSources {
                cli: sources.cli,
                environment: sources.environment,
                trusted_user,
                project,
            },
        )
    }

    /// Whether a result is what reading the layers of a configuration again comes to.
    pub open spec fn refreshed(
        self,
        generation: u64,
        user: LayerFile,
        project: LayerFile,
        limits: ConfigLimits,
        r: Result<RefreshedLayers, Failure>,
    ) -> bool {
        &&& r is Ok <==> self.user_layer(user, limits) is Ok && layer_of(
            "project"@,
            project,
            limits,
        ) is Ok && generation < u64::MAX
        &&& r is Ok ==> {
            &&& r->Ok_0.generation == generation + 1
            &&& setting_views(r->Ok_0.trusted_user@) == self.user_layer(user, limits)->Ok_0
            &&& setting_views(r->Ok_0.project@) == layer_of("project"@, project, limits)->Ok_0
        }
        &&& r is Err ==> failure_view(r->Err_0) == if self.user_layer(user, limits) is Err {
            self.user_layer(user, limits)->Err_0
        } else if layer_of("project"@, project, limits) is Err {
            layer_of("project"@, project, limits)->Err_0
        } else {
            (2u8, "invalid-configuration"@, "Configuration generation exhausted"@)
        }
    }

    /// Read the mutable file layers again. A read, a parse or a deadline error
    /// cannot yield an authorizing receipt, nor can an exhausted generation.
    pub fn refresh(
        &self,
        generation: u64,
        user: LayerFile,
        project: LayerFile,
        limits: ConfigLimits,
    ) -> (r: Result<RefreshedLayers, Failure>)
        ensures
            self.refreshed(generation, user, project, limits, r),
    {
        let trusted_user: Vec<(String, RawValue)> = match self.read_user(user, limits) {
            Ok(entries) => entries,
            Err(f) => return Err(f),
        };
        let project: Vec<(String, RawValue)> = match read_config("project", project, limits) {
            Ok(entries) => entries,
            Err(f) => return Err(f),
        };
        match generation.checked_add(1) {
            Some(generation) => Ok(RefreshedLayers { trusted_user, project, generation }),
            None => Err(invalid("Configuration generation exhausted")),
        }
    }
}

/// A resolved configuration stands where its resolution succeeded and work was
/// still admitted after it.
pub fn resolved_in_time(error: Option<&str>, admits_work: bool) -> (r: Result<(), Failure>)
    ensures
        match r {
            Ok(_) => error is None && admits_work,
            Err(f) => failure_view(f) == match error {
                Some(detail) => (2u8, "invalid-configuration"@, detail@),
                None => late_refusal(),
            } && (error is Some || !admits_work),
        },
{
    match error {
        Some(detail) => Err(invalid(detail)),
        None => timely(admits_work),
    }
}

/// Whether bytes begin with others.
pub open spec fn bytes_begin(bytes: Seq<u8>, prefix: Seq<u8>) -> bool {
    prefix.len() <= bytes.len() && bytes.take(prefix.len() as int) == prefix
}

/// Whether an environment variable belongs to the recognized namespace.
pub open spec fn recognized(name: Seq<u8>) -> bool {
    bytes_begin(name, encode_utf8("SR_"@)) || name == encode_utf8("TYPESAFE_API_KEY"@) || name
        == encode_utf8("TYPESAFE_ENDPOINT"@)
}

fn begins_with(bytes: &Vec<u8>, prefix: &[u8]) -> (r: bool)
    ensures
        r == bytes_begin(bytes@, prefix@),
{
    if prefix.len() > bytes.len() {
        return false;
    }
    let mut i: usize = 0;
    while i < prefix.len()
        invariant
            i <= prefix@.len() <= bytes@.len(),
            forall|j: int| 0 <= j < i ==> bytes@[j] == prefix@[j],
        decreases prefix@.len() - i,
    {
        if bytes[i] != prefix[i] {
            assert(bytes@.take(prefix@.len() as int)[i as int] != prefix@[i as int]);
            return false;
        }
        i = i + 1;
    }
    assert(bytes@.take(prefix@.len() as int) =~= prefix@);
    true
}

fn equals(bytes: &Vec<u8>, other: &[u8]) -> (r: bool)
    ensures
        r == (bytes@ == other@),
{
    let same: bool = bytes.len() == other.len() && begins_with(bytes, other);
    assert(bytes@.len() == other@.len() ==> bytes@.take(other@.len() as int) =~= bytes@);
    same
}

fn is_recognized(name: &Vec<u8>) -> (r: bool)
    ensures
        r == recognized(name@),
{
    begins_with(name, "SR_".as_bytes()) || equals(name, "TYPESAFE_API_KEY".as_bytes()) || equals(
        name,
        "TYPESAFE_ENDPOINT".as_bytes(),
    )
}

/// The recognized variables.
pub open spec fn recognized_variable() -> spec_fn((Vec<u8>, Vec<u8>)) -> bool {
    |variable: (Vec<u8>, Vec<u8>)| recognized(variable.0@)
}

/// Snapshot the recognized environment variables, in order, up to a bound.
/// `false` says that there were more.
pub fn snapshot_environment(variables: Vec<(Vec<u8>, Vec<u8>)>, max: usize) -> (r: (
    Vec<(Vec<u8>, Vec<u8>)>,
    bool,
))
    ensures
        ({
            let kept = variables@.filter(recognized_variable());
            &&& r.1 == (kept.len() <= max)
            &&& r.0@ == if kept.len() <= max {
                kept
            } else {
                kept.take(max as int)
            }
        }),
{
    let ghost all = variables@;
    let ghost p = recognized_variable();
    let mut kept: Vec<(Vec<u8>, Vec<u8>)> = Vec::new();
    let mut whole: bool = true;
    proof {
        reveal(Seq::filter);
        assert(all.take(0) =~= Seq::<(Vec<u8>, Vec<u8>)>::empty());
    }
    for variable in it: variables.into_iter()
        invariant
            it.seq() == all,
            p == recognized_variable(),
            whole == (all.take(it.index() as int).filter(p).len() <= max),
            kept@ =~= if whole {
                all.take(it.index() as int).filter(p)
            } else {
                all.take(it.index() as int).filter(p).take(max as int)
            },
    {
        proof {
            lemma_filter_step(all, it.index() as int, p);
        }
        if is_recognized(&variable.0) {
            if kept.len() < max {
                kept.push(variable);
            } else {
                whole = false;
            }
        }
    }
    assert(all.take(all.len() as int) =~= all);
    (kept, whole)
}

/// Snapshot the recognized environment variables, and refuse too many.
pub fn environment_sources(variables: Vec<(Vec<u8>, Vec<u8>)>, max: usize) -> (r: Result<
    Vec<(Vec<u8>, Vec<u8>)>,
    Failure,
>)
    ensures
        r is Ok <==> variables@.filter(recognized_variable()).len() <= max,
        r is Ok ==> r->Ok_0@ == variables@.filter(recognized_variable()),
        r is Err ==> failure_view(r->Err_0) == (
            2u8,
            "invalid-configuration"@,
            "Too many environment settings"@,
        ),
{
    let (kept, whole): (Vec<(Vec<u8>, Vec<u8>)>, bool) = snapshot_environment(variables, max);
    if whole {
        Ok(kept)
    } else {
        Err(invalid("Too many environment settings"))
    }
}

/// What kind of value a setting takes.
#[derive(Clone, Copy, Debug, PartialEq, Eq, Structural)]
pub enum ValueKind {
    Count,
    Millis,
    /// A number between 0 and 1.
    Unit,
    Other,
}

/// What an argument says of a setting: two flags stand for a value of their
/// own, counts are integers, thresholds numbers, and anything else a text.
/// `number` is the number the argument spells, where it spells one.
pub open spec fn cli_setting_of(
    name: Seq<char>,
    kind: ValueKind,
    flag: bool,
    argument: Option<Seq<char>>,
    number: Option<Score>,
) -> Result<Option<RawView>, Seq<char>> {
    if name == "shadow"@ {
        Ok(
            if flag {
                Some(RawView::Text("shadow"@))
            } else {
                None
            },
        )
    } else if name == "no-tools"@ {
        Ok(
            if flag {
                Some(RawView::Bool(true))
            } else {
                None
            },
        )
    } else {
        match argument {
            None => Ok(None),
            Some(given) => match kind {
                ValueKind::Count | ValueKind::Millis => match signed_numeral(given) {
                    Some(n) => if i64::MIN <= n <= i64::MAX {
                        Ok(Some(RawView::Integer(n as i64)))
                    } else {
                        Err("CLI count must be an integer"@)
                    },
                    None => Err("CLI count must be an integer"@),
                },
                ValueKind::Unit => match number {
                    Some(x) => Ok(Some(RawView::Float(x))),
                    None => Err("CLI threshold must be numeric"@),
                },
                ValueKind::Other => Ok(Some(RawView::Text(given))),
            },
        }
    }
}

/// What an argument says of a setting.
pub fn cli_setting(
    name: &str,
    kind: ValueKind,
    flag: bool,
    argument: Option<&str>,
    number: Option<Score>,
) -> (r: Result<Option<RawValue>, Failure>)
    ensures
        ({
            let said = cli_setting_of(
                name@,
                kind,
                flag,
                match argument {
                    Some(given) => Some(given@),
                    None => None,
                },
                number,
            );
            match r {
                Ok(value) => said is Ok && said->Ok_0 == match value {
                    Some(raw) => Some(raw@),
                    None => None,
                },
                Err(f) => said is Err && failure_view(f) == (
                    2u8,
                    "invalid-configuration"@,
                    said->Err_0,
                ),
            }
        }),
{
    if text::eq(name, "shadow") {
        return if flag {
            Ok(Some(RawValue::Text("shadow".to_owned())))
        } else {
            Ok(None)
        };
    }
    if text::eq(name, "no-tools") {
        return if flag {
            Ok(Some(RawValue::Bool(true)))
        } else {
            Ok(None)
        };
    }
    let given: &str = match argument {
        Some(given) => given,
        None => return Ok(None),
    };
    match kind {
        ValueKind::Count | ValueKind::Millis => match text::parse_signed(given) {
            Some(n) => Ok(Some(RawValue::Integer(n))),
            None => Err(invalid("CLI count must be an integer")),
        },
        ValueKind::Unit => match number {
            Some(x) => Ok(Some(RawValue::Float(x))),
            None => Err(invalid("CLI threshold must be numeric")),
        },
        ValueKind::Other => Ok(Some(RawValue::Text(given.to_owned()))),
    }
}

/// A setting that the command line can give: the name of its flag, the path of
/// the setting, and what was given.
#[derive(Clone, Debug, PartialEq, Eq)]
pub struct CliArgument {
    pub flag_name: String,
    pub path: String,
    pub kind: ValueKind,
    pub flag: bool,
    pub argument: Option<String>,
    /// The number that the argument spells, where it spells one.
    pub number: Option<Score>,
}

/// What one argument says of its setting.
pub open spec fn argument_says(given: CliArgument) -> Result<Option<RawView>, Seq<char>> {
    cli_setting_of(
        given.flag_name@,
        given.kind,
        given.flag,
        match given.argument {
            Some(a) => Some(a@),
            None => None,
        },
        given.number,
    )
}

/// The settings of the command line, in order, or the first refusal.
pub open spec fn cli_layer(given: Seq<CliArgument>) -> Result<
    Seq<(Seq<char>, RawView)>,
    Seq<char>,
>
    decreases given.len(),
{
    if given.len() == 0 {
        Ok(Seq::empty())
    } else {
        match cli_layer(given.drop_last()) {
            Err(message) => Err(message),
            Ok(list) => match argument_says(given.last()) {
                Err(message) => Err(message),
                Ok(None) => Ok(list),
                Ok(Some(raw)) => Ok(list.push((given.last().path@, raw))),
            },
        }
    }
}

proof fn lemma_cli_refusal_stays(given: Seq<CliArgument>, n: int)
    requires
        0 <= n <= given.len(),
        cli_layer(given.take(n)) is Err,
    ensures
        cli_layer(given) == cli_layer(given.take(n)),
    decreases given.len() - n,
{
    if n == given.len() {
        assert(given.take(n) =~= given);
    } else {
        assert(given.take(n + 1).drop_last() =~= given.take(n));
        lemma_cli_refusal_stays(given, n + 1);
    }
}

/// The settings of the command line.
pub fn cli_sources(given: &Vec<CliArgument>) -> (r: Result<Vec<(String, RawValue)>, Failure>)
    ensures
        match r {
            Ok(list) => cli_layer(given@) is Ok && cli_layer(given@)->Ok_0 == setting_views(list@),
            Err(f) => cli_layer(given@) is Err && failure_view(f) == (
                2u8,
                "invalid-configuration"@,
                cli_layer(given@)->Err_0,
            ),
        },
{
    let mut list: Vec<(String, RawValue)> = Vec::new();
    let mut i: usize = 0;
    proof {
        assert(given@.take(0) =~= Seq::<CliArgument>::empty());
        assert(setting_views(list@) =~= Seq::<(Seq<char>, RawView)>::empty());
    }
    while i < given.len()
        invariant
            i <= given@.len(),
            cli_layer(given@.take(i as int)) is Ok,
            cli_layer(given@.take(i as int))->Ok_0 == setting_views(list@),
        decreases given@.len() - i,
    {
        proof {
            assert(given@.take(i + 1).drop_last() =~= given@.take(i as int));
        }
        let one: &CliArgument = &given[i];
        let argument: Option<&str> = match &one.argument {
            Some(a) => Some(a.as_str()),
            None => None,
        };
        match cli_setting(one.flag_name.as_str(), one.kind, one.flag, argument, one.number) {
            Err(f) => {
                proof {
                    lemma_cli_refusal_stays(given@, i + 1);
                }
                return Err(f);
            },
            Ok(None) => {},
            Ok(Some(raw)) => {
                let ghost before = list@;
                list.push((one.path.clone(), raw));
                assert(setting_views(list@) =~= setting_views(before).push((one.path@, raw@)));
            },
        }
        i = i + 1;
    }
    assert(given@.take(given@.len() as int) =~= given@);
    Ok(list)
}

/// A directory that an environment variable may name.
#[derive(Clone, Copy, Debug, PartialEq, Eq, Structural)]
pub enum EnvPath {
    /// The variable is unset or empty.
    Unset,
    Relative,
    Absolute,
}

/// Where a user's files are looked for.
#[derive(Clone, Copy, Debug, PartialEq, Eq, Structural)]
pub enum UserRoot {
    /// The directory that the XDG variable names.
    Xdg,
    /// The platform's directory below the home directory.
    Home,
    Nowhere,
}

/// Where the user's configuration is looked for.
pub open spec fn config_root_of(xdg: EnvPath, home: EnvPath) -> Result<UserRoot, Seq<char>> {
    match xdg {
        EnvPath::Relative => Err("User configuration directory must be absolute"@),
        EnvPath::Absolute => Ok(UserRoot::Xdg),
        EnvPath::Unset => match home {
            EnvPath::Relative => Err("Home directory must be absolute"@),
            EnvPath::Absolute => Ok(UserRoot::Home),
            EnvPath::Unset => Ok(UserRoot::Nowhere),
        },
    }
}

/// Where the user's configuration is looked for. A relative directory is
/// refused, never searched.
pub fn user_config_root(xdg: EnvPath, home: EnvPath) -> (r: Result<UserRoot, Failure>)
    ensures
        match r {
            Ok(root) => config_root_of(xdg, home) == Ok::<UserRoot, Seq<char>>(root),
            Err(f) => config_root_of(xdg, home) is Err && failure_view(f) == (
                2u8,
                "invalid-configuration"@,
                config_root_of(xdg, home)->Err_0,
            ),
        },
{
    match xdg {
        EnvPath::Relative => Err(invalid("User configuration directory must be absolute")),
        EnvPath::Absolute => Ok(UserRoot::Xdg),
        EnvPath::Unset => match home {
            EnvPath::Relative => Err(invalid("Home directory must be absolute")),
            EnvPath::Absolute => Ok(UserRoot::Home),
            EnvPath::Unset => Ok(UserRoot::Nowhere),
        },
    }
}

/// Where the user's cache is looked for.
pub open spec fn cache_root_of(xdg: EnvPath, platform: bool) -> Result<UserRoot, Seq<char>> {
    match xdg {
        EnvPath::Relative => Err("User cache directory must be absolute"@),
        EnvPath::Absolute => Ok(UserRoot::Xdg),
        EnvPath::Unset => Ok(
            if platform {
                UserRoot::Home
            } else {
                UserRoot::Nowhere
            },
        ),
    }
}

/// Where the user's cache is looked for: the XDG directory, else the platform's
/// where it has one.
pub fn user_cache_root(xdg: EnvPath, platform: bool) -> (r: Result<UserRoot, Failure>)
    ensures
        match r {
            Ok(root) => cache_root_of(xdg, platform) == Ok::<UserRoot, Seq<char>>(root),
            Err(f) => cache_root_of(xdg, platform) is Err && failure_view(f) == (
                2u8,
                "invalid-configuration"@,
                cache_root_of(xdg, platform)->Err_0,
            ),
        },
{
    match xdg {
        EnvPath::Relative => Err(invalid("User cache directory must be absolute")),
        EnvPath::Absolute => Ok(UserRoot::Xdg),
        EnvPath::Unset => if platform {
            Ok(UserRoot::Home)
        } else {
            Ok(UserRoot::Nowhere)
        },
    }
}

/// A directory of the user's configuration is that of the environment, else that of
/// the home directory, else none; a relative path that would be used is refused.
pub proof fn lemma_user_directories(xdg: EnvPath, home: EnvPath, platform: bool)
    ensures
        xdg is Absolute ==> config_root_of(xdg, home) == Ok::<UserRoot, Seq<char>>(UserRoot::Xdg),
        xdg is Unset && home is Absolute ==> config_root_of(xdg, home) == Ok::<
            UserRoot,
            Seq<char>,
        >(UserRoot::Home),
        xdg is Unset && home is Unset ==> config_root_of(xdg, home) == Ok::<UserRoot, Seq<char>>(
            UserRoot::Nowhere,
        ),
        config_root_of(xdg, home) is Err <==> xdg is Relative || xdg is Unset && home is Relative,
        xdg is Absolute ==> cache_root_of(xdg, platform) == Ok::<UserRoot, Seq<char>>(
            UserRoot::Xdg,
        ),
        xdg is Unset ==> cache_root_of(xdg, platform) == Ok::<UserRoot, Seq<char>>(
            if platform {
                UserRoot::Home
            } else {
                UserRoot::Nowhere
            },
        ),
        cache_root_of(xdg, platform) is Err <==> xdg is Relative,
{
}

/// A value is kept as what it is: truth, a number, a text, or a list of texts that is
/// not too long. Nothing else is a setting.
pub proof fn lemma_values_are_kept_as_they_are(value: Toml, limits: ConfigLimits)
    ensures
        value is Boolean ==> raw_of(value, limits) == Some(RawView::Bool(value->Boolean_0)),
        value is Integer ==> raw_of(value, limits) == Some(RawView::Integer(value->Integer_0)),
        value is Float ==> raw_of(value, limits) == Some(
            RawView::Float(Score { bits: value->Float_0 }),
        ),
        value is Text ==> raw_of(value, limits) == Some(RawView::Text(value->Text_0)),
        value is Array ==> (raw_of(value, limits) is Some <==> value->Array_0.len()
            <= limits.list_items && forall|i: int|
            0 <= i < value->Array_0.len() ==> (#[trigger] value->Array_0[i]) is Text),
        value is Array && raw_of(value, limits) is Some ==> {
            let list = raw_of(value, limits)->0;
            &&& list is TextList
            &&& list->TextList_0.len() == value->Array_0.len()
            &&& forall|i: int|
                0 <= i < value->Array_0.len() ==> #[trigger] list->TextList_0[i]
                    == value->Array_0[i]->Text_0
        },
        value is Table ==> raw_of(value, limits) is None,
{
}

/// Whether every entry of a table is a setting under a name that is accepted.
pub open spec fn plain_table(
    table: Seq<(Seq<char>, Toml)>,
    prefix: Seq<char>,
    limits: ConfigLimits,
) -> bool {
    forall|i: int|
        0 <= i < table.len() ==> !((#[trigger] table[i]).1 is Table) && raw_of(table[i].1, limits)
            is Some && !name_refused(table[i].0, prefix, limits)
}

/// The settings of a table without others in it are its entries, in their order, each
/// under its name behind that of the table.
pub proof fn lemma_plain_tables_are_listed(
    table: Seq<(Seq<char>, Toml)>,
    from: int,
    prefix: Seq<char>,
    depth: int,
    limits: ConfigLimits,
    found: Seq<(Seq<char>, RawView)>,
)
    requires
        plain_table(table, prefix, limits),
        0 <= from <= table.len(),
        0 <= depth <= MAX_TABLE_DEPTH,
        found.len() + (table.len() - from) <= limits.layer_entries,
    ensures
        flattened(table, from, prefix, depth, limits, found) == Some(
            found + Seq::new(
                (table.len() - from) as nat,
                |i: int|
                    (
                        if prefix.len() == 0 {
                            table[from + i].0
                        } else {
                            prefix + "."@ + table[from + i].0
                        },
                        raw_of(table[from + i].1, limits)->0,
                    ),
            ),
        ),
    decreases table.len() - from,
{
    let listed = |k: int|
        Seq::new(
            (table.len() - k) as nat,
            |i: int|
                (
                    if prefix.len() == 0 {
                        table[k + i].0
                    } else {
                        prefix + "."@ + table[k + i].0
                    },
                    raw_of(table[k + i].1, limits)->0,
                ),
        );
    if from < table.len() {
        let (name, value) = table[from];
        let entry = (key_under(prefix, name), raw_of(value, limits)->0);
        lemma_plain_tables_are_listed(table, from + 1, prefix, depth, limits, found.push(entry));
        assert(found.push(entry) + listed(from + 1) =~= found + listed(from));
    } else {
        assert(found + listed(from) =~= found);
    }
}

/// The settings of a table in another are listed where it stands, under its name.
pub proof fn lemma_inner_tables_are_listed_under_their_name(
    name: Seq<char>,
    inner: Seq<(Seq<char>, Toml)>,
    limits: ConfigLimits,
)
    requires
        inner.len() > 0,
        !name_refused(name, Seq::empty(), limits),
    ensures
        flattened(seq![(name, Toml::Table(inner))], 0, Seq::empty(), 0, limits, Seq::empty())
            == flattened(inner, 0, name, 1, limits, Seq::empty()),
{
    let table = seq![(name, Toml::Table(inner))];
    reveal_with_fuel(flattened, 2);
    assert(table[0] == (name, Toml::Table(inner)));
    let within = flattened(inner, 0, name, 1, limits, Seq::empty());
    if within is Some {
        assert(flattened(table, 1, Seq::empty(), 0, limits, within->0) == within);
    }
}

/// A layer without a file is empty. One with a file is what the file decodes to, where
/// it was read and decoded in time; else it is refused, in its own name.
pub proof fn lemma_what_a_layer_holds(layer: Seq<char>, file: LayerFile, limits: ConfigLimits)
    ensures
        ({
            let held = layer_of(layer, file, limits);
            let timing = file.timing;
            let bytes = file.read->Bytes_0@;
            &&& !timing.before ==> held is Err && (held->Err_0).0 == 6
            &&& timing.before && file.read is Absent ==> held is Ok && held->Ok_0.len() == 0
            &&& timing.before && (file.read is RootUnavailable || file.read is Unreadable)
                ==> held is Err && (held->Err_0).0 == 2 && text::has_prefix(
                (held->Err_0).2,
                layer,
            )
            &&& timing.before && file.read is Bytes ==> {
                &&& held is Ok <==> timing.after_read && timing.after_decode && valid_utf8(bytes)
                    && decoded(decode_utf8(bytes), limits) is Some
                &&& held is Ok ==> held->Ok_0 == decoded(decode_utf8(bytes), limits)->0
                &&& !timing.after_read ==> (held->Err_0).0 == 6
                &&& timing.after_read && !valid_utf8(bytes) ==> (held->Err_0).0 == 2
            }
        }),
{
    if file.timing.before && file.read is RootUnavailable {
        let message = layer + ": configuration root unavailable"@;
        assert(message.take(layer.len() as int) =~= layer);
    }
    if file.timing.before && file.read is Unreadable {
        let message = layer + ": configuration must be a bounded authorized regular file"@;
        assert(message.take(layer.len() as int) =~= layer);
    }
}

/// A setting of the command line is what was given for it: a flag that was given sets
/// its mode, a count is an integer, a threshold a number, and anything else a text.
/// What was not given sets nothing.
pub proof fn lemma_what_a_command_line_sets(
    name: Seq<char>,
    kind: ValueKind,
    flag: bool,
    argument: Option<Seq<char>>,
    number: Option<Score>,
)
    ensures
        ({
            let said = cli_setting_of(name, kind, flag, argument, number);
            let plain = name != "shadow"@ && name != "no-tools"@;
            &&& name == "shadow"@ ==> said == Ok::<Option<RawView>, Seq<char>>(
                if flag {
                    Some(RawView::Text("shadow"@))
                } else {
                    None
                },
            )
            &&& name == "no-tools"@ ==> said == Ok::<Option<RawView>, Seq<char>>(
                if flag {
                    Some(RawView::Bool(true))
                } else {
                    None
                },
            )
            &&& plain && argument is None ==> said == Ok::<Option<RawView>, Seq<char>>(None)
            &&& plain && argument is Some && kind is Other ==> said == Ok::<
                Option<RawView>,
                Seq<char>,
            >(Some(RawView::Text(argument->0)))
            &&& plain && argument is Some && kind is Unit ==> (said is Ok <==> number is Some)
            &&& plain && argument is Some && kind is Unit && number is Some ==> said->Ok_0 == Some(
                RawView::Float(number->0),
            )
            &&& plain && argument is Some && (kind is Count || kind is Millis) ==> (said is Ok
                <==> signed_numeral(argument->0) is Some && i64::MIN <= signed_numeral(
                argument->0,
            )->0 <= i64::MAX)
            &&& plain && argument is Some && (kind is Count || kind is Millis) && said is Ok
                ==> said->Ok_0 is Some && said->Ok_0->0 is Integer && signed_numeral(argument->0)
                == Some(said->Ok_0->0->Integer_0 as int)
        }),
{
    reveal_strlit("shadow");
    reveal_strlit("no-tools");
    assert("shadow"@.len() != "no-tools"@.len());
}

/// One more argument adds its setting under its path, behind the others, where it sets
/// something; one that cannot be read spoils the layer.
pub proof fn lemma_one_more_argument(given: Seq<CliArgument>, more: CliArgument)
    requires
        cli_layer(given) is Ok,
    ensures
        ({
            let before = cli_layer(given)->Ok_0;
            let after = cli_layer(given.push(more));
            let said = argument_says(more);
            &&& said is Err ==> after is Err && after->Err_0 == said->Err_0
            &&& said is Ok && said->Ok_0 is None ==> after is Ok && after->Ok_0 == before
            &&& said is Ok && said->Ok_0 is Some ==> after is Ok && after->Ok_0 == before.push(
                (more.path@, said->Ok_0->0),
            )
        }),
{
    assert(given.push(more).drop_last() =~= given);
}

/// The user's layer is read only where there is a place for it.
pub proof fn lemma_user_layer_needs_a_root(
    files: ConfigFiles,
    user: LayerFile,
    limits: ConfigLimits,
)
    ensures
        files.user_root is None ==> files.user_layer(user, limits) is Ok && files.user_layer(
            user,
            limits,
        )->Ok_0.len() == 0,
        files.user_root is Some ==> files.user_layer(user, limits) == layer_of(
            "trusted-user"@,
            user,
            limits,
        ),
{
}

/// Loading a configuration reads both of its files into the layers they are for, and
/// leaves what the command line and the environment gave. It fails where either file
/// does, and of two that fail the user's is reported.
pub proof fn lemma_loading_fills_the_layers(
    files: ConfigFiles,
    sources: ConfigSources,
    user: LayerFile,
    project: LayerFile,
    limits: ConfigLimits,
    r: Result<ConfigSources, Failure>,
)
    requires
        files.loaded(sources, user, project, limits, r),
    ensures
        ({
            let of_user = files.user_layer(user, limits);
            let of_project = layer_of("project"@, project, limits);
            &&& r is Ok <==> of_user is Ok && of_project is Ok
            &&& r is Ok ==> r->Ok_0.cli == sources.cli && r->Ok_0.environment
                == sources.environment
            &&& r is Ok ==> setting_views(r->Ok_0.trusted_user@) == of_user->Ok_0
            &&& r is Ok ==> setting_views(r->Ok_0.project@) == of_project->Ok_0
            &&& of_user is Err ==> failure_view(r->Err_0) == of_user->Err_0
            &&& of_user is Ok && of_project is Err ==> failure_view(r->Err_0) == of_project->Err_0
        }),
{
}

/// Reading a configuration again moves it to the next generation, where both files can
/// be read and there is one.
pub proof fn lemma_refreshing_moves_the_generation(
    files: ConfigFiles,
    generation: u64,
    user: LayerFile,
    project: LayerFile,
    limits: ConfigLimits,
    r: Result<RefreshedLayers, Failure>,
)
    requires
        files.refreshed(generation, user, project, limits, r),
    ensures
        ({
            let of_user = files.user_layer(user, limits);
            let of_project = layer_of("project"@, project, limits);
            &&& r is Ok <==> of_user is Ok && of_project is Ok && generation != u64::MAX
            &&& r is Ok ==> r->Ok_0.generation == generation + 1
            &&& r is Ok ==> setting_views(r->Ok_0.trusted_user@) == of_user->Ok_0
            &&& r is Ok ==> setting_views(r->Ok_0.project@) == of_project->Ok_0
            &&& r is Err ==> failure_view(r->Err_0).0 == 2 || failure_view(r->Err_0).0 == 6
        }),
{
}

} // verus!
