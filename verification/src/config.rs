//! The plugin's configuration.
use vstd::prelude::*;

verus! {

#[derive(Debug, PartialEq)]
pub struct Config {
    /// History length; the oldest entries are dropped.
    pub max_entries: usize,
    /// Size limit of a text entry; larger copies are skipped.
    pub max_entry_bytes: usize,
    /// Size limit of an image as PNG; larger copies are skipped.
    pub max_image_bytes: usize,
    /// Clipboard poll interval.
    pub poll_ms: u64,
}

/// The shortest poll interval that is used.
pub const MIN_POLL_MS: u64 = 50;

/// The configuration where none is given.
pub open spec fn default_config() -> Config {
    Config { max_entries: 50, max_entry_bytes: 262144, max_image_bytes: 5242880, poll_ms: 500 }
}

impl Default for Config {
    fn default() -> (c: Self)
        ensures
            c == default_config(),
    {
        Config { max_entries: 50, max_entry_bytes: 262144, max_image_bytes: 5242880, poll_ms: 500 }
    }
}

/// The top-level keys of a TOML document, each with its value where that is an
/// integer; none if the text is no TOML.
pub uninterp spec fn toml_integers(text: Seq<char>) -> Option<Seq<(Seq<char>, Option<i64>)>>;

/// Keys and values as mathematical values.
pub open spec fn field_views(fields: Seq<(String, Option<i64>)>) -> Seq<(Seq<char>, Option<i64>)> {
    fields.map_values(|f: (String, Option<i64>)| (f.0@, f.1))
}

/// `toml::Table` parsed from `text`, and `toml::Value::as_integer` of each of
/// its values.
#[verifier::external_body]
fn toml_fields(text: &str) -> (res: Option<Vec<(String, Option<i64>)>>)
    ensures
        match res {
            Some(fields) => toml_integers(text@) == Some(field_views(fields@)),
            None => toml_integers(text@) is None,
        },
{
    let table = text.parse::<toml::Table>().ok()?;
    Some(table.into_iter().map(|(key, value)| (key, value.as_integer())).collect())
}

/// The value of `key`, if it is there: an integer, or something else.
pub open spec fn field(fields: Seq<(Seq<char>, Option<i64>)>, key: Seq<char>) -> Option<Option<i64>>
    decreases fields.len(),
{
    if fields.len() == 0 {
        None
    } else if fields[0].0 == key {
        Some(fields[0].1)
    } else {
        field(fields.skip(1), key)
    }
}

/// What a field sets: its value, or the default where it is missing or zero.
/// None where it is no integer from zero to `max`.
pub open spec fn setting(value: Option<Option<i64>>, max: nat, default: int) -> Option<int> {
    match value {
        None => Some(default),
        Some(Some(n)) => if 0 < n <= max {
            Some(n as int)
        } else if n == 0 {
            Some(default)
        } else {
            None
        },
        Some(None) => None,
    }
}

/// The configuration that the fields of a document set. One field of a wrong
/// type makes the whole document count as broken, and broken documents count
/// as none.
pub open spec fn configured(fields: Option<Seq<(Seq<char>, Option<i64>)>>) -> Config {
    let d = default_config();
    match fields {
        None => d,
        Some(f) => match (
            setting(field(f, "max_entries"@), usize::MAX as nat, d.max_entries as int),
            setting(field(f, "max_entry_bytes"@), usize::MAX as nat, d.max_entry_bytes as int),
            setting(field(f, "max_image_bytes"@), usize::MAX as nat, d.max_image_bytes as int),
            setting(field(f, "poll_ms"@), u64::MAX as nat, d.poll_ms as int),
        ) {
            (Some(entries), Some(entry_bytes), Some(image_bytes), Some(poll)) => Config {
                max_entries: entries as usize,
                max_entry_bytes: entry_bytes as usize,
                max_image_bytes: image_bytes as usize,
                poll_ms: poll as u64,
            },
            _ => d,
        },
    }
}

fn find_field(fields: &Vec<(String, Option<i64>)>, key: &str) -> (r: Option<Option<i64>>)
    ensures
        r == field(field_views(fields@), key@),
{
    let name = key.to_owned();
    let mut i: usize = 0;
    assert(field_views(fields@).skip(0) =~= field_views(fields@));
    while i < fields.len()
        invariant
            name@ == key@,
            i <= fields@.len(),
            field(field_views(fields@), key@) == field(field_views(fields@).skip(i as int), key@),
        decreases fields@.len() - i,
    {
        let ghost rest = field_views(fields@).skip(i as int);
        assert(rest[0] == (fields@[i as int].0@, fields@[i as int].1));
        assert(rest.skip(1) =~= field_views(fields@).skip(i + 1));
        if fields[i].0 == name {
            return Some(fields[i].1);
        }
        i += 1;
    }
    None
}

fn read_setting(value: Option<Option<i64>>, max: u64, default: u64) -> (r: Option<u64>)
    requires
        default <= max,
    ensures
        match r {
            Some(n) => setting(value, max as nat, default as int) == Some(n as int) && n <= max,
            None => setting(value, max as nat, default as int) is None,
        },
{
    match value {
        None => Some(default),
        Some(None) => None,
        Some(Some(n)) => if n == 0 {
            Some(default)
        } else if n > 0 && n as u64 <= max {
            Some(n as u64)
        } else {
            None
        },
    }
}

impl Config {
    /// The configuration that the fields of a document set.
    pub fn from_fields(fields: &Vec<(String, Option<i64>)>) -> (c: Config)
        ensures
            c == configured(Some(field_views(fields@))),
    {
        let d = Config::default();
        let entries = read_setting(
            find_field(fields, "max_entries"),
            usize::MAX as u64,
            d.max_entries as u64,
        );
        let entry_bytes = read_setting(
            find_field(fields, "max_entry_bytes"),
            usize::MAX as u64,
            d.max_entry_bytes as u64,
        );
        let image_bytes = read_setting(
            find_field(fields, "max_image_bytes"),
            usize::MAX as u64,
            d.max_image_bytes as u64,
        );
        let poll = read_setting(find_field(fields, "poll_ms"), u64::MAX, d.poll_ms);
        match (entries, entry_bytes, image_bytes, poll) {
            (Some(entries), Some(entry_bytes), Some(image_bytes), Some(poll_ms)) => Config {
                max_entries: entries as usize,
                max_entry_bytes: entry_bytes as usize,
                max_image_bytes: image_bytes as usize,
                poll_ms,
            },
            _ => d,
        }
    }

    /// The configuration that the text of `config.toml` sets, or the default
    /// where there is no such file; any problem silently yields defaults,
    /// since a broken config must not take the clipboard down. Zero values are
    /// treated as broken and fall back per field.
    pub fn load(text: Option<&str>) -> (c: Config)
        ensures
            match text {
                Some(t) => c == configured(toml_integers(t@)),
                None => c == default_config(),
            },
    {
        match text {
            None => Config::default(),
            Some(t) => match toml_fields(t) {
                Some(fields) => Config::from_fields(&fields),
                None => Config::default(),
            },
        }
    }

    /// The poll interval that the watcher keeps to.
    pub fn poll_interval_ms(&self) -> (ms: u64)
        ensures
            ms >= MIN_POLL_MS,
            ms >= self.poll_ms,
            ms == MIN_POLL_MS || ms == self.poll_ms,
            self.poll_ms >= 50 ==> ms == self.poll_ms,
            self.poll_ms < 50 ==> ms == 50,
    {
        if self.poll_ms > MIN_POLL_MS {
            self.poll_ms
        } else {
            MIN_POLL_MS
        }
    }
}

/// Whatever the document says, no limit and no interval is zero.
pub proof fn no_setting_is_zero(fields: Option<Seq<(Seq<char>, Option<i64>)>>)
    ensures
        configured(fields).max_entries > 0,
        configured(fields).max_entry_bytes > 0,
        configured(fields).max_image_bytes > 0,
        configured(fields).poll_ms > 0,
{
}

/// A document without any of the keys leaves everything at its default.
pub proof fn all_keys_are_optional(fields: Seq<(Seq<char>, Option<i64>)>)
    requires
        field(fields, "max_entries"@) is None,
        field(fields, "max_entry_bytes"@) is None,
        field(fields, "max_image_bytes"@) is None,
        field(fields, "poll_ms"@) is None,
    ensures
        configured(Some(fields)) == default_config(),
{
}

} // verus!
