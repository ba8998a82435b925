//! The conversation model: one `ChatLogItem` per turn, and the `ChatLog`
//! that owns the ordered sequence of turns together with the scene context,
//! optional descriptions and recalled memory snippets.

use vstd::prelude::*;
use crate::memories::MemoryFile;
use crate::text::{
    spec_join, spec_lines, spec_split_nl, name_run, join_strings, split_lines, split_plain_nl,
    leading_name_run, str_eq,
};

verus! {

/// The mathematical content of one turn: the speaker, the lines, and the
/// embedding vectors covering those lines.
pub ghost struct TurnView {
    pub entity: Seq<char>,
    pub lines: Seq<Seq<char>>,
    pub embeddings: Seq<Seq<i32>>,
}

/// The speaker name given to turns whose speaker could not be detected.
pub fn default_entity_name() -> (r: &'static str)
    ensures
        r@ == "Unknown"@,
{
    "Unknown"
}

/// One turn of the conversation: a speaker and the lines spoken.  The
/// embedding vectors, when present, are derived from exactly the current
/// `lines`; every mutation of the lines clears them.  Embedding components
/// are fixed-point values in units of 1/65536.
#[derive(Debug)]
pub struct ChatLogItem {
    /// The speaker of this turn.
    pub entity: String,
    /// The lines of the message.
    pub lines: Vec<String>,
    /// Embedding vectors covering the current lines, if computed.
    pub embeddings: Vec<Vec<i32>>,
}

impl View for ChatLogItem {
    type V = TurnView;

    open spec fn view(&self) -> TurnView {
        TurnView {
            entity: self.entity@,
            lines: self.lines@.map_values(|x: String| x@),
            embeddings: self.embeddings@.map_values(|x: Vec<i32>| x@),
        }
    }
}

/// How a turn reads once rendered: the speaker, a separating `": "`, and
/// the lines joined by line feeds.
pub open spec fn spec_rendered(entity: Seq<char>, lines: Seq<Seq<char>>) -> Seq<char> {
    entity + seq![':', ' '] + spec_join(lines, seq!['\n'])
}

/// The rendering of a whole turn.
pub open spec fn spec_rendered_turn(t: TurnView) -> Seq<char> {
    spec_rendered(t.entity, t.lines)
}

fn clone_string_vec(v: &Vec<String>) -> (r: Vec<String>)
    ensures
        r@ == v@,
{
    let mut r: Vec<String> = Vec::new();
    let mut i: usize = 0;
    while i < v.len()
        invariant
            i <= v.len(),
            r@ =~= v@.take(i as int),
        decreases v.len() - i,
    {
        r.push(v[i].clone());
        proof {
            assert(v@.take(i + 1) =~= v@.take(i as int).push(v@[i as int]));
        }
        i += 1;
    }
    proof {
        assert(v@.take(v@.len() as int) =~= v@);
    }
    r
}

fn clone_i32_vec(v: &Vec<i32>) -> (r: Vec<i32>)
    ensures
        r@ == v@,
{
    let mut r: Vec<i32> = Vec::new();
    let mut i: usize = 0;
    while i < v.len()
        invariant
            i <= v.len(),
            r@ =~= v@.take(i as int),
        decreases v.len() - i,
    {
        r.push(v[i]);
        proof {
            assert(v@.take(i + 1) =~= v@.take(i as int).push(v@[i as int]));
        }
        i += 1;
    }
    proof {
        assert(v@.take(v@.len() as int) =~= v@);
    }
    r
}

fn clone_embeddings(v: &Vec<Vec<i32>>) -> (r: Vec<Vec<i32>>)
    ensures
        r@.map_values(|x: Vec<i32>| x@) == v@.map_values(|x: Vec<i32>| x@),
{
    let mut r: Vec<Vec<i32>> = Vec::new();
    let mut i: usize = 0;
    while i < v.len()
        invariant
            i <= v.len(),
            r@.map_values(|x: Vec<i32>| x@) =~= v@.map_values(|x: Vec<i32>| x@).take(i as int),
        decreases v.len() - i,
    {
        let ghost old_r = r@.map_values(|x: Vec<i32>| x@);
        let piece = clone_i32_vec(&v[i]);
        let ghost piece_view = piece@;
        r.push(piece);
        proof {
            let all = v@.map_values(|x: Vec<i32>| x@);
            assert(r@.map_values(|x: Vec<i32>| x@) =~= old_r.push(piece_view));
            assert(all.take(i + 1) =~= all.take(i as int).push(all[i as int]));
        }
        i += 1;
    }
    proof {
        let all = v@.map_values(|x: Vec<i32>| x@);
        assert(all.take(v@.len() as int) =~= all);
    }
    r
}

impl Clone for ChatLogItem {
    fn clone(&self) -> (r: Self)
        ensures
            r@ == self@,
    {
        let r = ChatLogItem {
            entity: self.entity.clone(),
            lines: clone_string_vec(&self.lines),
            embeddings: clone_embeddings(&self.embeddings),
        };
        proof {
            assert(r@.lines =~= self@.lines);
        }
        r
    }
}

impl PartialEq for ChatLogItem {
    /// Two turns are the same message when their lines agree; the speaker
    /// and the cached embeddings take no part in the comparison.
    fn eq(&self, other: &Self) -> (r: bool) {
        if self.lines.len() != other.lines.len() {
            proof {
                assert(self@.lines.len() != other@.lines.len());
            }
            return false;
        }
        let mut i: usize = 0;
        while i < self.lines.len()
            invariant
                self.lines@.len() == other.lines@.len(),
                i <= self.lines@.len(),
                forall|k: int| 0 <= k < i ==> self@.lines[k] == other@.lines[k],
            decreases self.lines@.len() - i,
        {
            if !str_eq(self.lines[i].as_str(), other.lines[i].as_str()) {
                proof {
                    assert(self@.lines[i as int] != other@.lines[i as int]);
                }
                return false;
            }
            i += 1;
        }
        proof {
            assert(self@.lines =~= other@.lines);
        }
        true
    }
}

impl vstd::std_specs::cmp::PartialEqSpecImpl for ChatLogItem {
    open spec fn obeys_eq_spec() -> bool {
        true
    }

    open spec fn eq_spec(&self, other: &Self) -> bool {
        self@.lines == other@.lines
    }
}

impl ChatLogItem {
    /// A turn with no content and the default speaker name.
    pub fn new() -> (r: Self)
        ensures
            r@.entity == "Unknown"@,
            r@.lines.len() == 0,
            r@.embeddings.len() == 0,
    {
        let r = ChatLogItem {
            entity: default_entity_name().to_owned(),
            lines: Vec::new(),
            embeddings: Vec::new(),
        };
        proof {
            assert(r@.lines =~= Seq::<Seq<char>>::empty());
            assert(r@.embeddings =~= Seq::<Seq<i32>>::empty());
        }
        r
    }

    /// A turn speaking the given lines.
    pub fn new_from_strings(entity: String, v: &Vec<String>) -> (r: Self)
        ensures
            r@.entity == entity@,
            r@.lines == v@.map_values(|x: String| x@),
            r@.embeddings.len() == 0,
    {
        let r = ChatLogItem { entity, lines: clone_string_vec(v), embeddings: Vec::new() };
        proof {
            assert(r@.embeddings =~= Seq::<Seq<i32>>::empty());
        }
        r
    }

    /// A turn whose text is split into lines at line endings.
    pub fn new_from_str(entity: String, s: &str) -> (r: Self)
        ensures
            r@.entity == entity@,
            r@.lines == spec_lines(s@),
            r@.embeddings.len() == 0,
    {
        let r = ChatLogItem { entity, lines: split_lines(s), embeddings: Vec::new() };
        proof {
            assert(r@.embeddings =~= Seq::<Seq<i32>>::empty());
        }
        r
    }

    /// Appends `s` to the last line, splitting any line endings it brings
    /// along; an empty turn gets `s` as its only line.  The embeddings are
    /// cleared, since the lines they covered have changed.
    pub fn add_to_last(&mut self, s: &str)
        ensures
            old(self)@.lines.len() == 0 ==> final(self)@.lines =~= seq![s@],
            old(self)@.lines.len() > 0 ==> final(self)@.lines =~= old(
                self,
            )@.lines.drop_last() + spec_lines(old(self)@.lines.last() + s@),
            final(self)@.entity == old(self)@.entity,
            final(self)@.embeddings.len() == 0,
    {
        match self.lines.pop() {
            Some(last) => {
                let ghost old_lines = old(self)@.lines;
                let combined = last.concat(s);
                let mut pieces = split_lines(combined.as_str());
                self.lines.append(&mut pieces);
                proof {
                    assert(self.lines@.map_values(|x: String| x@) =~= old_lines.drop_last()
                        + spec_lines(old(self)@.lines.last() + s@));
                }
            },
            None => {
                self.lines.push(s.to_owned());
                proof {
                    assert(self.lines@.map_values(|x: String| x@) =~= seq![s@]);
                }
            },
        }
        self.embeddings = Vec::new();
        proof {
            assert(self@.embeddings =~= Seq::<Seq<i32>>::empty());
        }
    }

    /// The turn rendered as `"{speaker}: {lines}"`.
    pub fn get_name_and_items_as_string(&self) -> (r: String)
        ensures
            r@ == spec_rendered_turn(self@),
    {
        let mut out = self.entity.clone();
        out.append(": ");
        let joined = join_strings(&self.lines, "\n");
        out.append(joined.as_str());
        proof {
            reveal_strlit(": ");
            reveal_strlit("\n");
            assert(": "@ =~= seq![':', ' ']);
            assert("\n"@ =~= seq!['\n']);
        }
        out
    }

    /// The lines joined by line feeds, without the speaker name.
    pub fn get_items_as_string(&self) -> (r: String)
        ensures
            r@ == spec_join(self@.lines, seq!['\n']),
    {
        let joined = join_strings(&self.lines, "\n");
        proof {
            reveal_strlit("\n");
            assert("\n"@ =~= seq!['\n']);
        }
        joined
    }

    /// Replaces the lines with `paragraph`, split at every line feed; an
    /// empty paragraph leaves no lines.  The embeddings are cleared.
    pub fn replace_items_with_string(&mut self, paragraph: String)
        ensures
            paragraph@.len() == 0 ==> final(self)@.lines.len() == 0,
            paragraph@.len() > 0 ==> final(self)@.lines == spec_split_nl(paragraph@),
            final(self)@.entity == old(self)@.entity,
            final(self)@.embeddings.len() == 0,
    {
        if paragraph.as_str().unicode_len() == 0 {
            self.lines = Vec::new();
            proof {
                assert(self.lines@.map_values(|x: String| x@) =~= Seq::<Seq<char>>::empty());
            }
        } else {
            self.lines = split_plain_nl(paragraph.as_str());
        }
        self.embeddings = Vec::new();
        proof {
            assert(self@.embeddings =~= Seq::<Seq<i32>>::empty());
        }
    }
}

/// A participant in the conversation beyond its owner.
#[derive(Debug)]
pub struct Participant {
    /// Name of a model configuration to use for this participant instead of
    /// the default one.
    pub model_config_name: Option<String>,
    /// Relative path of the participant's character file.
    pub character_filepath: String,
}

impl Clone for Participant {
    fn clone(&self) -> (r: Self)
        ensures
            r == *self,
    {
        let model_config_name = match &self.model_config_name {
            Some(s) => Some(s.clone()),
            None => None,
        };
        Participant { model_config_name, character_filepath: self.character_filepath.clone() }
    }
}

/// Version counter for the log file format.
pub const CURRENT_CHATLOG_VERSION: u32 = 1;

/// The view of the recalled memory store: each key with its values.
pub open spec fn memory_view(m: Seq<(String, Vec<String>)>) -> Seq<(Seq<char>, Seq<Seq<char>>)> {
    m.map_values(|p: (String, Vec<String>)| (p.0@, p.1@.map_values(|x: String| x@)))
}

/// Every key occurs at most once in the memory store.
pub open spec fn memory_keys_unique(mv: Seq<(Seq<char>, Seq<Seq<char>>)>) -> bool {
    forall|i: int, j: int| 0 <= i < j < mv.len() ==> mv[i].0 != mv[j].0
}

/// The index of `k` in the memory store, or -1 when absent.
pub open spec fn find_key(mv: Seq<(Seq<char>, Seq<Seq<char>>)>, k: Seq<char>) -> int
    decreases mv.len(),
{
    if mv.len() == 0 {
        -1
    } else if mv[0].0 == k {
        0
    } else {
        let r = find_key(mv.skip(1), k);
        if r < 0 {
            -1
        } else {
            1 + r
        }
    }
}

pub proof fn lemma_find_key(mv: Seq<(Seq<char>, Seq<Seq<char>>)>, k: Seq<char>)
    ensures
        find_key(mv, k) < 0 ==> forall|i: int| 0 <= i < mv.len() ==> mv[i].0 != k,
        find_key(mv, k) >= 0 ==> find_key(mv, k) < mv.len() && mv[find_key(mv, k)].0 == k
            && forall|i: int| 0 <= i < find_key(mv, k) ==> mv[i].0 != k,
    decreases mv.len(),
{
    if mv.len() > 0 && mv[0].0 != k {
        lemma_find_key(mv.skip(1), k);
        assert(forall|i: int| 1 <= i < mv.len() ==> mv[i] == mv.skip(1)[i - 1]);
    }
}

/// What adding one memory value does to the store: the value is appended
/// under its key, and a fresh key is added at the end.
pub open spec fn spec_add_memory(
    mv: Seq<(Seq<char>, Seq<Seq<char>>)>,
    k: Seq<char>,
    v: Seq<char>,
) -> Seq<(Seq<char>, Seq<Seq<char>>)> {
    let i = find_key(mv, k);
    if i >= 0 {
        mv.update(i, (k, mv[i].1.push(v)))
    } else {
        mv.push((k, seq![v]))
    }
}

/// Adding memories one after the other.
pub open spec fn spec_absorb_memories(
    mv: Seq<(Seq<char>, Seq<Seq<char>>)>,
    entries: Seq<(Seq<char>, Seq<char>)>,
) -> Seq<(Seq<char>, Seq<Seq<char>>)>
    decreases entries.len(),
{
    if entries.len() == 0 {
        mv
    } else {
        spec_absorb_memories(spec_add_memory(mv, entries[0].0, entries[0].1), entries.skip(1))
    }
}

/// The whole conversation log: the ordered turns (index 0 is oldest),
/// the scene context, optional descriptions, and recalled memories.
#[derive(Debug)]
pub struct ChatLog {
    /// Where the log was last loaded from, if anywhere.
    pub last_used_filepath: Option<String>,
    /// Version counter of the log file format.
    pub version: u32,
    /// Substituted for the user-description placeholder when present.
    pub user_description: Option<String>,
    /// Other characters that can join the conversation.
    pub other_participants: Option<Vec<Participant>>,
    /// Relative paths of memory files to load alongside the log.
    pub memory_files: Option<Vec<String>>,
    /// The loaded memory snippets; every key occurs once.
    pub loaded_memory: Vec<(String, Vec<String>)>,
    /// Substituted for the current-context placeholder.
    pub current_context: String,
    /// The turns of the conversation, oldest first.
    pub items: Vec<ChatLogItem>,
}

impl View for ChatLog {
    type V = Seq<TurnView>;

    open spec fn view(&self) -> Seq<TurnView> {
        self.items@.map_values(|x: ChatLogItem| x@)
    }
}

impl ChatLog {
    /// A log with no turns and empty metadata.
    pub fn new() -> (r: Self)
        ensures
            r@.len() == 0,
            r.current_context@ == Seq::<char>::empty(),
            r.user_description is None,
            r.other_participants is None,
            r.memory_files is None,
            r.loaded_memory@.len() == 0,
            r.last_used_filepath is None,
    {
        ChatLog {
            last_used_filepath: None,
            version: CURRENT_CHATLOG_VERSION,
            user_description: None,
            other_participants: None,
            memory_files: None,
            loaded_memory: Vec::new(),
            current_context: String::new(),
            items: Vec::new(),
        }
    }

    /// A log built from already-loaded parts; the memory store starts
    /// empty.
    pub fn from_parts(
        user_description: Option<String>,
        other_participants: Option<Vec<Participant>>,
        memory_files: Option<Vec<String>>,
        current_context: String,
        items: Vec<ChatLogItem>,
    ) -> (r: Self)
        ensures
            r@ == items@.map_values(|x: ChatLogItem| x@),
            r.user_description == user_description,
            r.other_participants == other_participants,
            r.memory_files == memory_files,
            r.loaded_memory@.len() == 0,
            r.current_context == current_context,
            r.last_used_filepath is None,
    {
        ChatLog {
            last_used_filepath: None,
            version: CURRENT_CHATLOG_VERSION,
            user_description,
            other_participants,
            memory_files,
            loaded_memory: Vec::new(),
            current_context,
            items,
        }
    }

    /// The path the log was last loaded from or saved to.
    pub fn get_last_used_filepath(&self) -> (r: Option<&String>)
        ensures
            r is Some <==> self.last_used_filepath is Some,
            r is Some ==> *r->0 == self.last_used_filepath->0,
    {
        self.last_used_filepath.as_ref()
    }

    /// Records where the log was loaded from or saved to.
    pub fn set_last_used_filepath(&mut self, fp: Option<String>)
        ensures
            final(self).last_used_filepath == fp,
            final(self)@ == old(self)@,
            final(self).user_description == old(self).user_description,
            final(self).other_participants == old(self).other_participants,
            final(self).memory_files == old(self).memory_files,
            final(self).loaded_memory == old(self).loaded_memory,
            final(self).current_context == old(self).current_context,
    {
        self.last_used_filepath = fp;
    }

    /// The turn at `index`, when there is one.
    pub fn get(&self, index: usize) -> (r: Option<&ChatLogItem>)
        ensures
            match r {
                Some(it) => index < self@.len() && it@ == self@[index as int],
                None => index >= self@.len(),
            },
    {
        if index < self.items.len() {
            Some(&self.items[index])
        } else {
            None
        }
    }

    /// The last turn, when the log is not empty.
    pub fn last(&self) -> (r: Option<&ChatLogItem>)
        ensures
            match r {
                Some(it) => self@.len() > 0 && it@ == self@.last(),
                None => self@.len() == 0,
            },
    {
        if self.items.len() > 0 {
            Some(&self.items[self.items.len() - 1])
        } else {
            None
        }
    }

    /// How many turns the log holds.
    pub fn len(&self) -> (r: usize)
        ensures
            r == self@.len(),
    {
        self.items.len()
    }

    /// Read-only access to the turns, oldest first.
    pub fn turns(&self) -> (r: &Vec<ChatLogItem>)
        ensures
            r@.map_values(|x: ChatLogItem| x@) == self@,
    {
        &self.items
    }

    /// Appends a turn at the newest end.
    pub fn push(&mut self, item: ChatLogItem)
        ensures
            final(self)@ == old(self)@.push(item@),
            Self::same_meta(old(self), final(self)),
    {
        self.items.push(item);
        proof {
            assert(self.items@.map_values(|x: ChatLogItem| x@) =~= old(
                self,
            ).items@.map_values(|x: ChatLogItem| x@).push(item@));
        }
    }

    /// Removes and returns the newest turn.
    pub fn pop(&mut self) -> (r: Option<ChatLogItem>)
        ensures
            match r {
                Some(it) => old(self)@.len() > 0 && it@ == old(self)@.last() && final(self)@
                    == old(self)@.drop_last(),
                None => old(self)@.len() == 0 && final(self)@ == old(self)@,
            },
            Self::same_meta(old(self), final(self)),
    {
        let r = self.items.pop();
        proof {
            if old(self).items@.len() > 0 {
                assert(self.items@.map_values(|x: ChatLogItem| x@) =~= old(
                    self,
                ).items@.map_values(|x: ChatLogItem| x@).drop_last());
            }
        }
        r
    }

    /// Removes and returns the turn at `index`, when there is one.
    pub fn remove(&mut self, index: usize) -> (r: Option<ChatLogItem>)
        ensures
            match r {
                Some(it) => index < old(self)@.len() && it@ == old(self)@[index as int]
                    && final(self)@ == old(self)@.remove(index as int),
                None => index >= old(self)@.len() && final(self)@ == old(self)@,
            },
            Self::same_meta(old(self), final(self)),
    {
        if index < self.items.len() {
            let it = self.items.remove(index);
            proof {
                assert(self.items@.map_values(|x: ChatLogItem| x@) =~= old(
                    self,
                ).items@.map_values(|x: ChatLogItem| x@).remove(index as int));
            }
            Some(it)
        } else {
            None
        }
    }

    /// Stores freshly computed embedding vectors on the turn at `index`.
    pub fn set_embeddings(&mut self, index: usize, embeddings: Vec<Vec<i32>>)
        requires
            index < old(self)@.len(),
        ensures
            final(self)@ == old(self)@.update(
                index as int,
                TurnView {
                    entity: old(self)@[index as int].entity,
                    lines: old(self)@[index as int].lines,
                    embeddings: embeddings@.map_values(|x: Vec<i32>| x@),
                },
            ),
            Self::same_meta(old(self), final(self)),
    {
        let item = &mut self.items[index];
        item.embeddings = embeddings;
        proof {
            assert(self.items@.map_values(|x: ChatLogItem| x@) =~= old(
                self,
            ).items@.map_values(|x: ChatLogItem| x@).update(
                index as int,
                TurnView {
                    entity: old(self)@[index as int].entity,
                    lines: old(self)@[index as int].lines,
                    embeddings: embeddings@.map_values(|x: Vec<i32>| x@),
                },
            ));
        }
    }

    /// Everything but the turns is the same in `a` and `b`.
    pub open spec fn same_meta(a: &ChatLog, b: &ChatLog) -> bool {
        a.last_used_filepath == b.last_used_filepath && a.version == b.version
            && a.user_description == b.user_description && a.other_participants
            == b.other_participants && a.memory_files == b.memory_files && a.loaded_memory
            == b.loaded_memory && a.current_context == b.current_context
    }

    /// Appends `value` under `key` in the memory store, adding the key when
    /// it is new; key uniqueness is preserved.
    pub fn add_memory(&mut self, key: &String, value: &String)
        ensures
            memory_view(final(self).loaded_memory@) == spec_add_memory(
                memory_view(old(self).loaded_memory@),
                key@,
                value@,
            ),
            memory_keys_unique(memory_view(old(self).loaded_memory@)) ==> memory_keys_unique(
                memory_view(final(self).loaded_memory@),
            ),
            final(self)@ == old(self)@,
            final(self).current_context == old(self).current_context,
            final(self).user_description == old(self).user_description,
            final(self).other_participants == old(self).other_participants,
            final(self).memory_files == old(self).memory_files,
    {
        let ghost mv = memory_view(self.loaded_memory@);
        proof {
            lemma_find_key(mv, key@);
        }
        let mut i: usize = 0;
        let n = self.loaded_memory.len();
        while i < n
            invariant
                n == self.loaded_memory@.len(),
                i <= n,
                mv == memory_view(self.loaded_memory@),
                *self == *old(self),
                forall|j: int| 0 <= j < i ==> mv[j].0 != key@,
            decreases n - i,
        {
            if str_eq(self.loaded_memory[i].0.as_str(), key.as_str()) {
                proof {
                    lemma_find_key_found(mv, key@, i as int);
                }
                let entry = &mut self.loaded_memory[i];
                entry.1.push(value.clone());
                proof {
                    assert(memory_view(self.loaded_memory@) =~~= mv.update(
                        i as int,
                        (key@, mv[i as int].1.push(value@)),
                    ));
                }
                return ;
            }
            i += 1;
        }
        proof {
            lemma_find_key(mv, key@);
            if find_key(mv, key@) >= 0 {
                assert(mv[find_key(mv, key@)].0 == key@);
                assert(false);
            }
        }
        let mut vals: Vec<String> = Vec::new();
        vals.push(value.clone());
        self.loaded_memory.push((key.clone(), vals));
        proof {
            assert(vals@.map_values(|x: String| x@) =~= seq![value@]);
            assert(memory_view(self.loaded_memory@) =~~= mv.push((key@, seq![value@])));
        }
    }

    /// Merges every memory of `file` into the store, in order.
    pub fn absorb_memory_file(&mut self, file: &MemoryFile)
        ensures
            memory_view(final(self).loaded_memory@) == spec_absorb_memories(
                memory_view(old(self).loaded_memory@),
                file.memories@.map_values(|m: crate::memories::Memory| (m.key@, m.value@)),
            ),
            final(self)@ == old(self)@,
            final(self).current_context == old(self).current_context,
            final(self).user_description == old(self).user_description,
            final(self).other_participants == old(self).other_participants,
            final(self).memory_files == old(self).memory_files,
    {
        let ghost entries = file.memories@.map_values(
            |m: crate::memories::Memory| (m.key@, m.value@),
        );
        let mut i: usize = 0;
        proof {
            assert(entries.skip(0) =~= entries);
        }
        while i < file.memories.len()
            invariant
                file.memories@.len() == entries.len(),
                entries == file.memories@.map_values(
                    |m: crate::memories::Memory| (m.key@, m.value@),
                ),
                i <= entries.len(),
                spec_absorb_memories(memory_view(old(self).loaded_memory@), entries)
                    == spec_absorb_memories(memory_view(self.loaded_memory@), entries.skip(
                    i as int,
                )),
                self@ == old(self)@,
                self.current_context == old(self).current_context,
                self.user_description == old(self).user_description,
                self.other_participants == old(self).other_participants,
                self.memory_files == old(self).memory_files,
            decreases entries.len() - i,
        {
            let m = &file.memories[i];
            self.add_memory(&m.key, &m.value);
            proof {
                assert(entries.skip(i as int)[0] == entries[i as int]);
                assert(entries.skip(i as int).skip(1) =~= entries.skip(i + 1));
            }
            i += 1;
        }
        proof {
            assert(entries.skip(entries.len() as int) =~= Seq::<(Seq<char>, Seq<char>)>::empty());
        }
    }
}

/// How one greeting line becomes a turn: a leading run of name characters
/// followed by a colon names the speaker, and the name, the colon and one
/// following character are dropped from the text; otherwise the whole line
/// is kept under the default speaker name.
pub open spec fn spec_greeting_turn(l: Seq<char>) -> TurnView {
    let run = name_run(l);
    if run >= 1 && run < l.len() && l[run] == ':' {
        let cut = if run + 2 <= l.len() {
            run + 2
        } else {
            l.len() as int
        };
        TurnView { entity: l.take(run), lines: spec_lines(l.skip(cut)), embeddings: Seq::empty() }
    } else {
        TurnView { entity: "Unknown"@, lines: spec_lines(l), embeddings: Seq::empty() }
    }
}

fn make_greeting_item(line: &String) -> (r: ChatLogItem)
    ensures
        r@ == spec_greeting_turn(line@),
{
    let s = line.as_str();
    let len = s.unicode_len();
    let run = leading_name_run(s);
    if run >= 1 && run < len && s.get_char(run) == ':' {
        let cut = if len - run >= 2 {
            run + 2
        } else {
            len
        };
        let entity = s.substring_char(0, run).to_owned();
        let rest = s.substring_char(cut, len);
        let r = ChatLogItem::new_from_str(entity, rest);
        proof {
            assert(entity@ =~= line@.take(run as int));
            assert(rest@ =~= line@.skip(cut as int));
            assert(r@.embeddings =~= Seq::<Seq<i32>>::empty());
        }
        r
    } else {
        let r = ChatLogItem::new_from_str(default_entity_name().to_owned(), s);
        proof {
            assert(r@.embeddings =~= Seq::<Seq<i32>>::empty());
        }
        r
    }
}

/// The first name in `names` that prefixes `line`, with a trailing colon
/// dropped; empty when no name matches.
pub open spec fn spec_matched_name(line: Seq<char>, names: Seq<Seq<char>>) -> Seq<char>
    decreases names.len(),
{
    if names.len() == 0 {
        Seq::empty()
    } else if crate::text::is_prefix_of(names[0], line) {
        if names[0].len() > 0 && names[0].last() == ':' {
            names[0].drop_last()
        } else {
            names[0]
        }
    } else {
        spec_matched_name(line, names.skip(1))
    }
}

fn matched_name(line: &String, names: &Vec<String>) -> (r: String)
    ensures
        r@ == spec_matched_name(line@, names@.map_values(|x: String| x@)),
{
    let ghost views = names@.map_values(|x: String| x@);
    let mut i: usize = 0;
    proof {
        assert(views.skip(0) =~= views);
    }
    while i < names.len()
        invariant
            views == names@.map_values(|x: String| x@),
            i <= names.len(),
            spec_matched_name(line@, views) == spec_matched_name(line@, views.skip(i as int)),
        decreases names.len() - i,
    {
        let name = &names[i];
        proof {
            assert(views.skip(i as int)[0] == views[i as int]);
            assert(views.skip(i as int).skip(1) =~= views.skip(i + 1));
        }
        if crate::text::starts_with_str(line.as_str(), name.as_str()) {
            let name_len = name.as_str().unicode_len();
            if name_len > 0 && name.as_str().get_char(name_len - 1) == ':' {
                let trimmed = name.as_str().substring_char(0, name_len - 1);
                proof {
                    assert(trimmed@ =~= name@.drop_last());
                }
                return trimmed.to_owned();
            } else {
                return name.clone();
            }
        }
        i += 1;
    }
    proof {
        assert(views.skip(names@.len() as int) =~= Seq::<Seq<char>>::empty());
    }
    String::new()
}

/// How a plain text log parses into turns.  Lines that no known name
/// prefixes join the turn being collected; a line starting with a known
/// name closes the collected turn and opens a new one under that name.
pub open spec fn spec_parse_log(
    lines: Seq<Seq<char>>,
    name_buf: Seq<char>,
    line_buf: Seq<Seq<char>>,
    names: Seq<Seq<char>>,
) -> Seq<TurnView>
    decreases lines.len(),
{
    if lines.len() == 0 {
        if line_buf.len() == 0 {
            Seq::empty()
        } else {
            seq![TurnView { entity: name_buf, lines: line_buf, embeddings: Seq::empty() }]
        }
    } else {
        let m = spec_matched_name(lines[0], names);
        if m.len() == 0 {
            spec_parse_log(lines.skip(1), name_buf, line_buf.push(lines[0]), names)
        } else if line_buf.len() == 0 {
            spec_parse_log(lines.skip(1), m, seq![lines[0]], names)
        } else {
            seq![TurnView { entity: name_buf, lines: line_buf, embeddings: Seq::empty() }]
                + spec_parse_log(lines.skip(1), m, seq![lines[0]], names)
        }
    }
}

impl ChatLog {
    /// Builds a log from the lines of a plain text file.  `names` holds
    /// the speaker tags to recognise at line starts (a trailing colon in a
    /// tag is dropped from the recorded speaker name); a speaker's lines
    /// keep their tag prefix, as in the file.
    pub fn from_text_lines(lines: &Vec<String>, names: &Vec<String>) -> (r: ChatLog)
        ensures
            r@ == spec_parse_log(
                lines@.map_values(|x: String| x@),
                Seq::empty(),
                Seq::empty(),
                names@.map_values(|x: String| x@),
            ),
            r.current_context@ == Seq::<char>::empty(),
            r.user_description is None,
            r.other_participants is None,
            r.memory_files is None,
            r.loaded_memory@.len() == 0,
            r.last_used_filepath is None,
    {
        let ghost line_views = lines@.map_values(|x: String| x@);
        let ghost name_views = names@.map_values(|x: String| x@);
        let mut log = ChatLog::new();
        let mut name_buf = String::new();
        let mut line_buf: Vec<String> = Vec::new();
        let mut i: usize = 0;
        proof {
            assert(line_views.skip(0) =~= line_views);
            assert(line_buf@.map_values(|x: String| x@) =~= Seq::<Seq<char>>::empty());
            assert(Seq::<TurnView>::empty() + spec_parse_log(
                line_views,
                Seq::empty(),
                Seq::empty(),
                name_views,
            ) =~= spec_parse_log(line_views, Seq::empty(), Seq::empty(), name_views));
        }
        while i < lines.len()
            invariant
                line_views == lines@.map_values(|x: String| x@),
                name_views == names@.map_values(|x: String| x@),
                i <= lines.len(),
                spec_parse_log(line_views, Seq::empty(), Seq::empty(), name_views) == log@
                    + spec_parse_log(
                    line_views.skip(i as int),
                    name_buf@,
                    line_buf@.map_values(|x: String| x@),
                    name_views,
                ),
                log.current_context@ == Seq::<char>::empty(),
                log.user_description is None,
                log.other_participants is None,
                log.memory_files is None,
                log.loaded_memory@.len() == 0,
                log.last_used_filepath is None,
            decreases lines.len() - i,
        {
            let ghost tail = line_views.skip(i as int);
            proof {
                assert(tail[0] == line_views[i as int]);
                assert(tail.skip(1) =~= line_views.skip(i + 1));
            }
            let line = &lines[i];
            let m = matched_name(line, names);
            if m.as_str().unicode_len() == 0 {
                let ghost old_lb = line_buf@.map_values(|x: String| x@);
                line_buf.push(line.clone());
                proof {
                    assert(line_buf@.map_values(|x: String| x@) =~= old_lb.push(line@));
                }
            } else {
                if line_buf.len() > 0 {
                    let ghost turn = TurnView {
                        entity: name_buf@,
                        lines: line_buf@.map_values(|x: String| x@),
                        embeddings: Seq::empty(),
                    };
                    let item = ChatLogItem::new_from_strings(name_buf.clone(), &line_buf);
                    proof {
                        assert(item@.embeddings =~= Seq::<Seq<i32>>::empty());
                        assert(item@ == turn);
                    }
                    log.push(item);
                    proof {
                        assert((log@.drop_last() + (seq![turn] + spec_parse_log(
                            line_views.skip(i + 1),
                            m@,
                            seq![line@],
                            name_views,
                        ))) =~= (log@ + spec_parse_log(
                            line_views.skip(i + 1),
                            m@,
                            seq![line@],
                            name_views,
                        )));
                    }
                }
                name_buf = m;
                line_buf = Vec::new();
                line_buf.push(line.clone());
                proof {
                    assert(line_buf@.map_values(|x: String| x@) =~= seq![line@]);
                }
            }
            i += 1;
        }
        if line_buf.len() > 0 {
            let ghost turn = TurnView {
                entity: name_buf@,
                lines: line_buf@.map_values(|x: String| x@),
                embeddings: Seq::empty(),
            };
            let item = ChatLogItem::new_from_strings(name_buf.clone(), &line_buf);
            proof {
                assert(item@.embeddings =~= Seq::<Seq<i32>>::empty());
                assert(item@ == turn);
            }
            log.push(item);
            proof {
                assert(line_views.skip(lines@.len() as int) =~= Seq::<Seq<char>>::empty());
                assert(log@.drop_last() + seq![turn] =~= log@);
            }
        } else {
            proof {
                assert(line_views.skip(lines@.len() as int) =~= Seq::<Seq<char>>::empty());
                assert(log@ + Seq::<TurnView>::empty() =~= log@);
            }
        }
        log
    }

    /// A fresh log opened with the character's greeting: each greeting
    /// line becomes one turn, with the speaker taken from a leading
    /// `Name:` tag when one is there; the scene context is copied from the
    /// character file.
    pub fn new_with_greeting(character_file: &crate::config::CharacterFileYaml, user_name: &str) -> (r:
        ChatLog)
        ensures
            ({
                let greeting = spec_lines(character_file.greeting@).map_values(
                    |l: Seq<char>|
                        crate::text::spec_replace(
                            crate::text::spec_replace(
                                l,
                                "<|character_name|>"@,
                                character_file.name@,
                            ),
                            "<|user_name|>"@,
                            user_name@,
                        ),
                );
                r@.len() == greeting.len() && forall|i: int|
                    0 <= i < greeting.len() ==> r@[i] == spec_greeting_turn(greeting[i])
            }),
            r.current_context@ == character_file.context@,
            r.user_description is None,
            r.other_participants is None,
            r.memory_files is None,
            r.loaded_memory@.len() == 0,
            r.last_used_filepath is None,
    {
        let ghost greeting_spec = spec_lines(character_file.greeting@).map_values(
            |l: Seq<char>|
                crate::text::spec_replace(
                    crate::text::spec_replace(l, "<|character_name|>"@, character_file.name@),
                    "<|user_name|>"@,
                    user_name@,
                ),
        );
        let greeting = character_file.get_greeting(user_name);
        let mut log = ChatLog::new();
        log.current_context = character_file.context.clone();
        let mut i: usize = 0;
        while i < greeting.len()
            invariant
                greeting@.map_values(|x: String| x@) == greeting_spec,
                i <= greeting.len(),
                log@.len() == i,
                forall|j: int| 0 <= j < i ==> log@[j] == spec_greeting_turn(greeting_spec[j]),
                log.current_context@ == character_file.context@,
                log.user_description is None,
                log.other_participants is None,
                log.memory_files is None,
                log.loaded_memory@.len() == 0,
                log.last_used_filepath is None,
            decreases greeting.len() - i,
        {
            let item = make_greeting_item(&greeting[i]);
            log.push(item);
            i += 1;
        }
        log
    }
}

proof fn lemma_find_key_found(mv: Seq<(Seq<char>, Seq<Seq<char>>)>, k: Seq<char>, i: int)
    requires
        0 <= i < mv.len(),
        mv[i].0 == k,
        forall|j: int| 0 <= j < i ==> mv[j].0 != k,
    ensures
        find_key(mv, k) == i,
    decreases i,
{
    if i > 0 {
        assert(mv.skip(1)[i - 1] == mv[i]);
        assert(forall|j: int| 0 <= j < i - 1 ==> mv.skip(1)[j] == mv[j + 1]);
        lemma_find_key_found(mv.skip(1), k, i - 1);
    }
}

} // verus!
