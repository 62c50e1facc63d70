//! The configuration record and the `KEY=VALUE` file format it is read from.

use crate::text::{
    drop_spaces, find, find_char, lemma_find, lemma_find_at, lemma_lines_are_single, lemma_lines_concat,
    lemma_lines_single, lemma_trim_bounds, lemma_trim_nothing, lemma_trim_start,
    lemma_trim_start_concat, lemma_trim_without_cr, lemma_trimmed, lines, next_line, single_line, skip_spaces, substring,
    to_chars, trim, trim_start, white_space, without_cr,
};
use vstd::prelude::*;
use vstd::string::StringExecFns;

verus! {

/// What the tool knows about the container it manages.
#[derive(Debug, Clone, PartialEq, Eq)]
pub struct LazyConfig {
    /// The container's name.
    pub name: String,
    /// The base image, or repository.
    pub image_name: String,
    /// The image's tag.
    pub image_tag: String,
    /// The image reference, `image_name:image_tag`.
    pub image: String,
    /// The path of the Dockerfile.
    pub dockerfile: String,
    /// The path of an environment file; empty where there is none. The file
    /// format has no key for it.
    pub env: String,
}

/// A configuration as plain sequences of characters.
pub struct ConfigView {
    pub name: Seq<char>,
    pub image_name: Seq<char>,
    pub image_tag: Seq<char>,
    pub image: Seq<char>,
    pub dockerfile: Seq<char>,
    pub env: Seq<char>,
}

impl View for LazyConfig {
    type V = ConfigView;

    open spec fn view(&self) -> ConfigView {
        ConfigView {
            name: self.name@,
            image_name: self.image_name@,
            image_tag: self.image_tag@,
            image: self.image@,
            dockerfile: self.dockerfile@,
            env: self.env@,
        }
    }
}

/// The image reference made of a name and a tag.
pub open spec fn image_reference(image_name: Seq<char>, image_tag: Seq<char>) -> Seq<char> {
    image_name + seq![':'] + image_tag
}

impl ConfigView {
    /// The image reference is the one that name and tag give.
    pub open spec fn wf(self) -> bool {
        self.image == image_reference(self.image_name, self.image_tag)
    }
}

/// `v` without one pair of double quotes around it, where it has one.
pub open spec fn unquote(v: Seq<char>) -> Seq<char> {
    if v.len() >= 2 && v[0] == '"' && v.last() == '"' {
        v.subrange(1, v.len() - 1)
    } else {
        v
    }
}

/// The key and the value that a line assigns. A line that is blank, that begins
/// with `#` or that holds no `=` assigns nothing. The key ends before the first
/// `=`; key and value are trimmed, and the value loses one pair of quotes.
pub open spec fn key_value(line: Seq<char>) -> Option<(Seq<char>, Seq<char>)> {
    let t = trim(line);
    if t.len() == 0 || t[0] == '#' {
        None
    } else {
        let k = find(t, '=') as int;
        if k >= t.len() {
            None
        } else {
            Some((trim(t.take(k)), unquote(trim(t.skip(k + 1)))))
        }
    }
}

/// Whether `line` assigns a value to `key`.
pub open spec fn assigns(line: Seq<char>, key: Seq<char>) -> bool {
    key_value(line) matches Some(kv) && kv.0 == key
}

/// The value that `line` assigns; empty where it assigns nothing.
pub open spec fn value_in(line: Seq<char>) -> Seq<char> {
    match key_value(line) {
        Some(kv) => kv.1,
        None => Seq::empty(),
    }
}

/// The value that the last line assigning `key` gives it; empty where no line
/// assigns it.
pub open spec fn lookup(lines: Seq<Seq<char>>, key: Seq<char>) -> Seq<char>
    decreases lines.len(),
{
    if lines.len() == 0 {
        Seq::empty()
    } else {
        match key_value(lines.last()) {
            Some(kv) => if kv.0 == key {
                kv.1
            } else {
                lookup(lines.drop_last(), key)
            },
            None => lookup(lines.drop_last(), key),
        }
    }
}

/// The configuration that a sequence of lines describes.
pub open spec fn config_of_lines(lines: Seq<Seq<char>>) -> ConfigView {
    let image_name = lookup(lines, "IMAGE_NAME"@);
    let image_tag = lookup(lines, "IMAGE_TAG"@);
    ConfigView {
        name: lookup(lines, "NAME"@),
        image_name,
        image_tag,
        image: image_reference(image_name, image_tag),
        dockerfile: lookup(lines, "DOCKERFILE"@),
        env: Seq::empty(),
    }
}

/// The configuration that a file's text describes.
pub open spec fn config_of(text: Seq<char>) -> ConfigView {
    config_of_lines(lines(text))
}

/// No two of the four keys are the same.
pub proof fn lemma_keys_differ()
    ensures
        "NAME"@ != "IMAGE_NAME"@,
        "NAME"@ != "IMAGE_TAG"@,
        "NAME"@ != "DOCKERFILE"@,
        "IMAGE_NAME"@ != "IMAGE_TAG"@,
        "IMAGE_NAME"@ != "DOCKERFILE"@,
        "IMAGE_TAG"@ != "DOCKERFILE"@,
{
    reveal_strlit("NAME");
    reveal_strlit("IMAGE_NAME");
    reveal_strlit("IMAGE_TAG");
    reveal_strlit("DOCKERFILE");
    assert("NAME"@.len() == 4);
    assert("IMAGE_TAG"@.len() == 9);
    assert("IMAGE_NAME"@.len() == 10);
    assert("IMAGE_NAME"@[0] != "DOCKERFILE"@[0]);
}

/// Key and value of the line that `v` holds from `lo` up to `hi`.
fn key_value_between(v: &Vec<char>, lo: usize, hi: usize) -> (r: Option<(String, String)>)
    requires
        lo <= hi <= v@.len(),
    ensures
        r.deep_view() == key_value(v@.subrange(lo as int, hi as int)),
{
    let ghost line = v@.subrange(lo as int, hi as int);
    let a = skip_spaces(v, lo, hi);
    let b = drop_spaces(v, a, hi);
    let ghost t = v@.subrange(a as int, b as int);
    assert(t == trim(line));
    if a == b || v[a] == '#' {
        return None;
    }
    let k = find_char(v, a, b, '=');
    if k == b {
        return None;
    }
    let key_lo = skip_spaces(v, a, k);
    let key_hi = drop_spaces(v, key_lo, k);
    let val_lo = skip_spaces(v, k + 1, b);
    let val_hi = drop_spaces(v, val_lo, b);
    proof {
        assert(t.take(k - a) =~= v@.subrange(a as int, k as int));
        assert(t.skip(k - a + 1) =~= v@.subrange(k + 1, b as int));
    }
    let ghost value = v@.subrange(val_lo as int, val_hi as int);
    let quoted = val_hi - val_lo >= 2 && v[val_lo] == '"' && v[val_hi - 1] == '"';
    let key = substring(v, key_lo, key_hi);
    let val = if quoted {
        proof {
            assert(value.subrange(1, value.len() - 1) =~= v@.subrange(val_lo + 1, val_hi - 1));
        }
        substring(v, val_lo + 1, val_hi - 1)
    } else {
        substring(v, val_lo, val_hi)
    };
    Some((key, val))
}

/// Reads one line of a configuration file: the key and the value that it assigns,
/// if it assigns any.
pub fn parse_key_val(line: &str) -> (r: Option<(String, String)>)
    ensures
        r.deep_view() == key_value(line@),
{
    let v = to_chars(line);
    proof {
        assert(v@.subrange(0, v@.len() as int) =~= v@);
    }
    key_value_between(&v, 0, v.len())
}

impl Default for LazyConfig {
    /// The configuration of an empty file: every setting empty.
    fn default() -> (c: LazyConfig)
        ensures
            c@ == config_of(Seq::empty()),
            c@.wf(),
    {
        let mut image = String::new();
        image.push(':');
        proof {
            assert(lines(Seq::<char>::empty()) =~= Seq::<Seq<char>>::empty());
            assert(image@ =~= image_reference(Seq::empty(), Seq::empty()));
        }
        LazyConfig {
            name: String::new(),
            image_name: String::new(),
            image_tag: String::new(),
            image,
            dockerfile: String::new(),
            env: String::new(),
        }
    }
}


/// What was found where a configuration file may lie.
#[derive(Debug, Clone, PartialEq, Eq)]
pub enum ConfigFile {
    /// No file is there.
    Missing,
    /// A file is there and could not be read.
    Unreadable,
    /// A file is there, with this text.
    Read(String),
}

/// The configuration that holds when `local` was found in the working directory
/// and `global` under the home directory: the local file decides where it
/// exists, the global one where no local file exists, and a file that exists and
/// cannot be read gives the defaults.
pub open spec fn resolved(local: ConfigFile, global: ConfigFile) -> ConfigView {
    match local {
        ConfigFile::Read(text) => config_of(text@),
        ConfigFile::Unreadable => config_of(Seq::empty()),
        ConfigFile::Missing => match global {
            ConfigFile::Read(text) => config_of(text@),
            _ => config_of(Seq::empty()),
        },
    }
}

/// The path of the global configuration file for a user whose home directory is
/// `home`: `.config/.lazy` below it.
pub open spec fn global_path(home: Seq<char>) -> Seq<char> {
    if home.len() > 0 && home.last() != '/' {
        home + "/.config/.lazy"@
    } else {
        home + ".config/.lazy"@
    }
}

/// The line of a configuration file that gives `key` the value `value`, in
/// double quotes.
pub open spec fn quoted_line(key: Seq<char>, value: Seq<char>) -> Seq<char> {
    key + seq!['=', '"'] + value + seq!['"']
}

/// The line that gives `key` the value `value`, with its line feed.
pub open spec fn assignment(key: Seq<char>, value: Seq<char>) -> Seq<char> {
    quoted_line(key, value).push('\n')
}

/// A configuration written as the text of a configuration file.
pub open spec fn text_of(c: ConfigView) -> Seq<char> {
    assignment("NAME"@, c.name) + assignment("IMAGE_NAME"@, c.image_name) + assignment(
        "IMAGE_TAG"@,
        c.image_tag,
    ) + assignment("DOCKERFILE"@, c.dockerfile)
}

/// The user's home directory as `dirs::home_dir` reports it, or `None` where it
/// reports none or the path is not valid Unicode. The answer depends on the
/// environment, so nothing is claimed of it.
#[verifier::external_body]
fn home_dir() -> (home: Option<String>) {
    dirs::home_dir().and_then(|p| p.into_os_string().into_string().ok())
}

/// Appends to `text` the line that gives `key` the value `value`.
fn push_assignment(text: &mut String, key: &str, value: &str)
    ensures
        final(text)@ == old(text)@ + assignment(key@, value@),
{
    text.append(key);
    text.append("=\"");
    text.append(value);
    text.append("\"\n");
    proof {
        reveal_strlit("=\"");
        reveal_strlit("\"\n");
        assert("=\""@ =~= seq!['=', '"']);
        assert("\"\n"@ =~= seq!['"', '\n']);
        assert(text@ =~= old(text)@ + assignment(key@, value@));
    }
}

impl LazyConfig {
    /// Reads the text of a configuration file. Lines that assign nothing, and
    /// keys that are not known, change nothing.
    pub fn parse(content: &str) -> (c: LazyConfig)
        ensures
            c@ == config_of(content@),
            c@.wf(),
    {
        let v = to_chars(content);
        let n = v.len();
        let name_key = "NAME".to_owned();
        let image_name_key = "IMAGE_NAME".to_owned();
        let image_tag_key = "IMAGE_TAG".to_owned();
        let dockerfile_key = "DOCKERFILE".to_owned();
        let mut name = String::new();
        let mut image_name = String::new();
        let mut image_tag = String::new();
        let mut dockerfile = String::new();
        let ghost mut done: Seq<Seq<char>> = Seq::empty();
        let mut pos: usize = 0;
        proof {
            assert(v@.skip(0) =~= v@);
        }
        while pos < n
            invariant
                pos <= n == v@.len(),
                v@ == content@,
                name_key@ == "NAME"@,
                image_name_key@ == "IMAGE_NAME"@,
                image_tag_key@ == "IMAGE_TAG"@,
                dockerfile_key@ == "DOCKERFILE"@,
                lines(content@) == done + lines(v@.skip(pos as int)),
                name@ == lookup(done, "NAME"@),
                image_name@ == lookup(done, "IMAGE_NAME"@),
                image_tag@ == lookup(done, "IMAGE_TAG"@),
                dockerfile@ == lookup(done, "DOCKERFILE"@),
            decreases n - pos,
        {
            let (hi, next) = next_line(&v, pos);
            let ghost line = v@.subrange(pos as int, hi as int);
            proof {
                lemma_keys_differ();
                assert(done.push(line).drop_last() =~= done);
                assert(done.push(line) + lines(v@.skip(next as int)) =~= done + (seq![line]
                    + lines(v@.skip(next as int))));
            }
            match key_value_between(&v, pos, hi) {
                Some((key, val)) => {
                    if key == name_key {
                        name = val;
                    } else if key == image_name_key {
                        image_name = val;
                    } else if key == image_tag_key {
                        image_tag = val;
                    } else if key == dockerfile_key {
                        dockerfile = val;
                    }
                },
                None => {},
            }
            proof {
                done = done.push(line);
            }
            pos = next;
        }
        proof {
            assert(v@.skip(n as int) =~= Seq::<char>::empty());
            assert(done + lines(v@.skip(n as int)) =~= done);
        }
        let mut image = image_name.clone();
        image.push(':');
        image.append(image_tag.as_str());
        proof {
            assert(image@ =~= image_reference(image_name@, image_tag@));
        }
        LazyConfig { name, image_name, image_tag, image, dockerfile, env: String::new() }
    }

    /// The configuration to work with, given what was found in the working
    /// directory and under the home directory.
    pub fn resolve(local: &ConfigFile, global: &ConfigFile) -> (c: LazyConfig)
        ensures
            c@ == resolved(*local, *global),
            c@.wf(),
    {
        match local {
            ConfigFile::Read(text) => LazyConfig::parse(text.as_str()),
            ConfigFile::Unreadable => LazyConfig::default(),
            ConfigFile::Missing => match global {
                ConfigFile::Read(text) => LazyConfig::parse(text.as_str()),
                _ => LazyConfig::default(),
            },
        }
    }

    /// The path of the global configuration file below the home directory `home`.
    pub fn global_path_under(home: &str) -> (path: String)
        ensures
            path@ == global_path(home@),
    {
        let v = to_chars(home);
        let mut path = home.to_owned();
        if v.len() > 0 && v[v.len() - 1] != '/' {
            path.push('/');
            proof {
                assert(home@.push('/') + ".config/.lazy"@ =~= home@ + "/.config/.lazy"@) by {
                    reveal_strlit(".config/.lazy");
                    reveal_strlit("/.config/.lazy");
                }
            }
        }
        path.append(".config/.lazy");
        path
    }

    /// The path of the global configuration file of the user that runs the
    /// program, or `None` where no home directory is known.
    pub fn global_config_path() -> (path: Option<String>)
        ensures
            path matches Some(p) ==> exists|home: Seq<char>| p@ == global_path(home),
    {
        let home = home_dir();
        LazyConfig::global_path_for(home)
    }

    /// The path of the global configuration file, given the home directory that
    /// was found: `.config/.lazy` below it, and `None` where none was found.
    pub fn global_path_for(home: Option<String>) -> (path: Option<String>)
        ensures
            path.deep_view() == (match home {
                Some(found) => Some(global_path(found@)),
                None => None,
            }),
    {
        match home {
            Some(found) => Some(LazyConfig::global_path_under(found.as_str())),
            None => None,
        }
    }

    /// Writes the configuration as the text of a configuration file, each value
    /// in double quotes.
    pub fn serialize(&self) -> (text: String)
        ensures
            text@ == text_of(self@),
    {
        let mut text = String::new();
        push_assignment(&mut text, "NAME", self.name.as_str());
        push_assignment(&mut text, "IMAGE_NAME", self.image_name.as_str());
        push_assignment(&mut text, "IMAGE_TAG", self.image_tag.as_str());
        push_assignment(&mut text, "DOCKERFILE", self.dockerfile.as_str());
        proof {
            assert(text@ =~= text_of(self@));
        }
        text
    }
}


/// Whether `key` is one of the keys that a configuration file can set.
pub open spec fn known_key(key: Seq<char>) -> bool {
    key == "NAME"@ || key == "IMAGE_NAME"@ || key == "IMAGE_TAG"@ || key == "DOCKERFILE"@
}

/// Whether a line leaves every setting as it is: it assigns nothing, as a blank
/// line or a comment does, or it assigns to a key that is not known.
pub open spec fn inert(line: Seq<char>) -> bool {
    match key_value(line) {
        Some(kv) => !known_key(kv.0),
        None => true,
    }
}

/// Whether `key` can stand at the start of a line and be read back as it is:
/// it is not empty, has no white space at its ends, does not begin a comment
/// and holds neither `=` nor a line feed.
pub open spec fn plain_key(key: Seq<char>) -> bool {
    &&& key.len() > 0
    &&& !white_space(key[0])
    &&& !white_space(key.last())
    &&& key[0] != '#'
    &&& forall|i: int| 0 <= i < key.len() ==> key[i] != '=' && key[i] != '\n'
}

/// The image reference of a configuration that was read is its image name, a
/// colon and its image tag, also where one of them or both are empty.
pub proof fn lemma_image_is_name_and_tag(text: Seq<char>)
    ensures
        config_of(text).wf(),
        config_of(text).image == config_of(text).image_name + seq![':'] + config_of(
            text,
        ).image_tag,
{
}

/// What a key is worth after one more line: the value that the line gives it,
/// or what it was worth before.
pub proof fn lemma_lookup_push(lines: Seq<Seq<char>>, line: Seq<char>, key: Seq<char>)
    ensures
        lookup(lines.push(line), key) == (if assigns(line, key) {
            value_in(line)
        } else {
            lookup(lines, key)
        }),
{
    assert(lines.push(line).drop_last() =~= lines);
}

/// A line that does not assign `key`, put among other lines, leaves `key` worth
/// what it was.
pub proof fn lemma_lookup_skips(lines: Seq<Seq<char>>, at: int, line: Seq<char>, key: Seq<char>)
    requires
        0 <= at <= lines.len(),
        !assigns(line, key),
    ensures
        lookup(lines.insert(at, line), key) == lookup(lines, key),
    decreases lines.len(),
{
    let longer = lines.insert(at, line);
    if at == lines.len() {
        assert(longer =~= lines.push(line));
        lemma_lookup_push(lines, line, key);
    } else {
        assert(longer.last() == lines.last());
        assert(longer.drop_last() =~= lines.drop_last().insert(at, line));
        lemma_lookup_skips(lines.drop_last(), at, line, key);
    }
}

/// A blank line, a comment or a line with an unknown key, put anywhere among
/// the lines of a configuration, changes no setting.
pub proof fn lemma_inert_line(lines: Seq<Seq<char>>, at: int, line: Seq<char>)
    requires
        0 <= at <= lines.len(),
        inert(line),
    ensures
        config_of_lines(lines.insert(at, line)) == config_of_lines(lines),
{
    lemma_lookup_skips(lines, at, line, "NAME"@);
    lemma_lookup_skips(lines, at, line, "IMAGE_NAME"@);
    lemma_lookup_skips(lines, at, line, "IMAGE_TAG"@);
    lemma_lookup_skips(lines, at, line, "DOCKERFILE"@);
}

/// A blank line, a comment or a line with an unknown key, put into the text of
/// a configuration file where a line begins, changes no setting.
pub proof fn lemma_inert_line_in_text(before: Seq<char>, line: Seq<char>, after: Seq<char>)
    requires
        before.len() > 0 ==> before.last() == '\n',
        single_line(line),
        inert(line),
    ensures
        config_of(before + line.push('\n') + after) == config_of(before + after),
{
    let ended = line.push('\n');
    lemma_lines_concat(before, ended + after);
    lemma_lines_concat(ended, after);
    lemma_lines_single(line);
    lemma_lines_concat(before, after);
    lemma_trim_without_cr(line);
    let others = lines(before) + lines(after);
    let at = lines(before).len() as int;
    assert(before + ended + after =~= before + (ended + after));
    assert(lines(before + ended + after) =~= others.insert(at, without_cr(line)));
    lemma_inert_line(others, at, without_cr(line));
}

/// A line that gives a plain key a value in double quotes is read back as that
/// key and that value.
pub proof fn lemma_quoted_line_parses(key: Seq<char>, value: Seq<char>)
    requires
        plain_key(key),
    ensures
        key_value(quoted_line(key, value)) == Some((key, value)),
{
    let line = quoted_line(key, value);
    let k = key.len() as int;
    assert(line[0] == key[0]);
    lemma_trim_nothing(line);
    assert forall|j: int| 0 <= j < k implies line[j] != '=' by {
        assert(line[j] == key[j]);
    }
    lemma_find_at(line, '=', k);
    assert(line.take(k) =~= key);
    lemma_trim_nothing(key);
    let quoted = line.skip(k + 1);
    assert(quoted =~= seq!['"'] + value + seq!['"']);
    lemma_trim_nothing(quoted);
    assert(quoted.subrange(1, quoted.len() - 1) =~= value);
}

/// Quotes around a value make no difference: a line gives a key the same value
/// with them and without them, where the value is written without white space
/// at its ends and has no quotes around it of its own, and the key holds no `=`.
pub proof fn lemma_quotes_make_no_difference(key: Seq<char>, value: Seq<char>)
    requires
        forall|i: int| 0 <= i < key.len() ==> key[i] != '=',
        trim(value) == value,
        unquote(value) == value,
    ensures
        key_value(key + seq!['='] + value) == key_value(quoted_line(key, value)),
{
    let bare = seq!['='] + value;
    let quoted = seq!['=', '"'] + value + seq!['"'];
    let plain = key + seq!['='] + value;
    let line = quoted_line(key, value);
    lemma_trimmed(value);
    assert(plain =~= key + bare);
    assert(line =~= key + quoted);
    lemma_trim_start_concat(key, bare);
    lemma_trim_start_concat(key, quoted);
    lemma_trim_start(key);
    let start = trim_start(key);
    let k = start.len() as int;
    let t1 = start + bare;
    let t2 = start + quoted;
    lemma_trim_nothing_at_end(t1);
    lemma_trim_nothing_at_end(t2);
    assert(t1[0] == t2[0]);
    assert forall|j: int| 0 <= j < k implies t1[j] != '=' && t2[j] != '=' by {
        assert(t1[j] == start[j]);
        assert(t2[j] == start[j]);
        assert(start[j] == key[j + key.len() - k]);
    }
    lemma_find_at(t1, '=', k);
    lemma_find_at(t2, '=', k);
    assert(t1.take(k) =~= start);
    assert(t2.take(k) =~= start);
    assert(t1.skip(k + 1) =~= value);
    let wrapped = t2.skip(k + 1);
    assert(wrapped =~= seq!['"'] + value + seq!['"']);
    lemma_trim_nothing(wrapped);
    assert(wrapped.subrange(1, wrapped.len() - 1) =~= value);
    if value.len() >= 2 && value[0] == '"' && value.last() == '"' {
        assert(value.subrange(1, value.len() - 1).len() < value.len());
    }
}

/// A text that does not end with white space keeps its end when it is trimmed.
proof fn lemma_trim_nothing_at_end(s: Seq<char>)
    requires
        s.len() > 0,
        !white_space(s.last()),
        !white_space(trim_start(s)[0]) || trim_start(s).len() == 0,
    ensures
        trim(s) == trim_start(s),
{
    lemma_trim_start(s);
    let t = trim_start(s);
    if t.len() > 0 {
        assert(t.last() == s.last());
    } else {
        assert(white_space(s[s.len() - 1]));
    }
}

/// The four known keys are plain keys.
pub proof fn lemma_known_keys_are_plain()
    ensures
        plain_key("NAME"@),
        plain_key("IMAGE_NAME"@),
        plain_key("IMAGE_TAG"@),
        plain_key("DOCKERFILE"@),
{
    reveal_strlit("NAME");
    reveal_strlit("IMAGE_NAME");
    reveal_strlit("IMAGE_TAG");
    reveal_strlit("DOCKERFILE");
    assert("NAME"@.len() == 4);
    assert("IMAGE_NAME"@.len() == 10);
    assert("IMAGE_TAG"@.len() == 9);
    assert("DOCKERFILE"@.len() == 10);
}

/// Key and value of a line hold no line feed where the line holds none.
pub proof fn lemma_key_value_single_line(line: Seq<char>)
    requires
        single_line(line),
    ensures
        key_value(line) matches Some(kv) ==> single_line(kv.0) && single_line(kv.1),
{
    let (a, b) = lemma_trim_bounds(line);
    let t = trim(line);
    if t.len() > 0 && t[0] != '#' {
        lemma_find(t, '=');
        let k = find(t, '=') as int;
        if k < t.len() {
            let left = t.take(k);
            let right = t.skip(k + 1);
            let (la, lb) = lemma_trim_bounds(left);
            let (ra, rb) = lemma_trim_bounds(right);
            let value = trim(right);
            assert(single_line(t));
            assert(single_line(left));
            assert(single_line(right));
            assert(single_line(trim(left)));
            assert(single_line(value));
            assert(single_line(unquote(value)));
        }
    }
}

/// The value of a key holds no line feed where no line holds one.
pub proof fn lemma_lookup_single_line(lines: Seq<Seq<char>>, key: Seq<char>)
    requires
        forall|i: int| 0 <= i < lines.len() ==> single_line(#[trigger] lines[i]),
    ensures
        single_line(lookup(lines, key)),
    decreases lines.len(),
{
    if lines.len() > 0 {
        lemma_key_value_single_line(lines.last());
        lemma_lookup_single_line(lines.drop_last(), key);
    }
}

/// The lines of a configuration written as text are its four quoted lines.
pub proof fn lemma_lines_of_text(c: ConfigView)
    requires
        single_line(c.name),
        single_line(c.image_name),
        single_line(c.image_tag),
        single_line(c.dockerfile),
    ensures
        lines(text_of(c)) == seq![
            quoted_line("NAME"@, c.name),
            quoted_line("IMAGE_NAME"@, c.image_name),
            quoted_line("IMAGE_TAG"@, c.image_tag),
            quoted_line("DOCKERFILE"@, c.dockerfile),
        ],
{
    lemma_known_keys_are_plain();
    let l1 = quoted_line("NAME"@, c.name);
    let l2 = quoted_line("IMAGE_NAME"@, c.image_name);
    let l3 = quoted_line("IMAGE_TAG"@, c.image_tag);
    let l4 = quoted_line("DOCKERFILE"@, c.dockerfile);
    lemma_quoted_line_single("NAME"@, c.name);
    lemma_quoted_line_single("IMAGE_NAME"@, c.image_name);
    lemma_quoted_line_single("IMAGE_TAG"@, c.image_tag);
    lemma_quoted_line_single("DOCKERFILE"@, c.dockerfile);
    lemma_lines_single(l1);
    lemma_lines_single(l2);
    lemma_lines_single(l3);
    lemma_lines_single(l4);
    let t4 = l4.push('\n');
    let t3 = l3.push('\n') + t4;
    let t2 = l2.push('\n') + t3;
    lemma_lines_concat(l3.push('\n'), t4);
    lemma_lines_concat(l2.push('\n'), t3);
    lemma_lines_concat(l1.push('\n'), t2);
    assert(text_of(c) =~= l1.push('\n') + t2);
    assert(lines(text_of(c)) =~= seq![l1, l2, l3, l4]);
}

/// A quoted line holds no line feed where key and value hold none, and does not
/// end with a carriage return.
proof fn lemma_quoted_line_single(key: Seq<char>, value: Seq<char>)
    requires
        plain_key(key),
        single_line(value),
    ensures
        single_line(quoted_line(key, value)),
        without_cr(quoted_line(key, value)) == quoted_line(key, value),
{
    let line = quoted_line(key, value);
    assert forall|i: int| 0 <= i < line.len() implies line[i] != '\n' by {
        if i < key.len() {
            assert(line[i] == key[i]);
        } else if i < key.len() + 2 {
        } else if i < key.len() + 2 + value.len() {
            assert(line[i] == value[i - key.len() - 2]);
        } else {
        }
    }
}

/// A configuration that is written as text and read again keeps its four
/// settings, where none of them holds a line feed; the image reference is made
/// anew and the environment file is left out.
pub proof fn lemma_read_written(c: ConfigView)
    requires
        single_line(c.name),
        single_line(c.image_name),
        single_line(c.image_tag),
        single_line(c.dockerfile),
    ensures
        config_of(text_of(c)) == (ConfigView {
            name: c.name,
            image_name: c.image_name,
            image_tag: c.image_tag,
            image: image_reference(c.image_name, c.image_tag),
            dockerfile: c.dockerfile,
            env: Seq::empty(),
        }),
{
    lemma_known_keys_are_plain();
    lemma_keys_differ();
    lemma_lines_of_text(c);
    let l1 = quoted_line("NAME"@, c.name);
    let l2 = quoted_line("IMAGE_NAME"@, c.image_name);
    let l3 = quoted_line("IMAGE_TAG"@, c.image_tag);
    let l4 = quoted_line("DOCKERFILE"@, c.dockerfile);
    lemma_quoted_line_parses("NAME"@, c.name);
    lemma_quoted_line_parses("IMAGE_NAME"@, c.image_name);
    lemma_quoted_line_parses("IMAGE_TAG"@, c.image_tag);
    lemma_quoted_line_parses("DOCKERFILE"@, c.dockerfile);
    let none = Seq::<Seq<char>>::empty();
    let all = none.push(l1).push(l2).push(l3).push(l4);
    assert(all =~= seq![l1, l2, l3, l4]);
    assert forall|key: Seq<char>| known_key(key) implies lookup(all, key) == (if key == "NAME"@ {
        c.name
    } else if key == "IMAGE_NAME"@ {
        c.image_name
    } else if key == "IMAGE_TAG"@ {
        c.image_tag
    } else {
        c.dockerfile
    }) by {
        lemma_lookup_push(none, l1, key);
        lemma_lookup_push(none.push(l1), l2, key);
        lemma_lookup_push(none.push(l1).push(l2), l3, key);
        lemma_lookup_push(none.push(l1).push(l2).push(l3), l4, key);
    }
    assert(known_key("NAME"@));
    assert(known_key("IMAGE_NAME"@));
    assert(known_key("IMAGE_TAG"@));
    assert(known_key("DOCKERFILE"@));
}

/// Reading is idempotent: the configuration read from a text, written as text
/// and read again, is the configuration that was read first.
pub proof fn lemma_reading_is_idempotent(text: Seq<char>)
    ensures
        config_of(text_of(config_of(text))) == config_of(text),
{
    let c = config_of(text);
    lemma_lines_are_single(text);
    lemma_lookup_single_line(lines(text), "NAME"@);
    lemma_lookup_single_line(lines(text), "IMAGE_NAME"@);
    lemma_lookup_single_line(lines(text), "IMAGE_TAG"@);
    lemma_lookup_single_line(lines(text), "DOCKERFILE"@);
    lemma_read_written(c);
}

} // verus!
