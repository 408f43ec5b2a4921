//! How the clips of a peer are taken over.

use vstd::prelude::*;

use crate::http::{url_of, url_to};
use crate::peers::{Peer, PeerView};
use crate::sync::{update_sync_status, PeerSyncStatus, SyncStatusMap};
use crate::text::{chars_of, maybe, pieces, same_text, split_on, string_of, views};
use crate::unicode::alphanumeric;

verus! {

/// A clip, as a device hands it to another one.
pub struct SyncClip {
    pub content: String,
    pub content_type: String,
    pub device_id: String,
    pub created_at: String,
    pub ocr_text: Option<String>,
    pub content_hash: String,
    pub language: Option<String>,
    pub is_sensitive: bool,
    pub digest: Option<String>,
}

/// What a `SyncClip` holds.
pub struct SyncClipView {
    pub content: Seq<char>,
    pub content_type: Seq<char>,
    pub device_id: Seq<char>,
    pub created_at: Seq<char>,
    pub ocr_text: Option<Seq<char>>,
    pub content_hash: Seq<char>,
    pub language: Option<Seq<char>>,
    pub is_sensitive: bool,
    pub digest: Option<Seq<char>>,
}

impl View for SyncClip {
    type V = SyncClipView;

    open spec fn view(&self) -> SyncClipView {
        SyncClipView {
            content: self.content@,
            content_type: self.content_type@,
            device_id: self.device_id@,
            created_at: self.created_at@,
            ocr_text: maybe(self.ocr_text),
            content_hash: self.content_hash@,
            language: maybe(self.language),
            is_sensitive: self.is_sensitive,
            digest: maybe(self.digest),
        }
    }
}

/// What each of `list` holds.
pub open spec fn clips(list: Seq<SyncClip>) -> Seq<SyncClipView> {
    list.map_values(|clip: SyncClip| clip@)
}

/// A clip that is to be stored, not pinned.
pub struct NewClip {
    pub clip: SyncClip,
    pub pinned: bool,
}

/// What has to be found out about a clip next.
pub enum ImportStage {
    /// Whether it is known already.
    LookUp,
    /// Whether its image could be fetched and saved.
    Fetch,
    /// Whether it could be stored.
    Insert,
    /// Nothing: the exchange is over.
    Done,
}

/// An exchange with a peer that is under way.
pub struct Import {
    peer: Peer,
    list: Vec<SyncClip>,
    next: usize,
    imported: usize,
    stage: ImportStage,
}

/// What an `Import` holds.
pub struct ImportView {
    pub peer: PeerView,
    /// The clips of the peer, the newest first.
    pub list: Seq<SyncClipView>,
    /// The place of the clip that is looked at.
    pub next: int,
    /// How many clips were stored.
    pub imported: int,
    pub stage: ImportStage,
}

/// What has to be done next, so that a yes or a no comes out of it.
pub enum ImportStep {
    /// Look for a clip with this hash: is there one?
    LookUp { content_hash: String },
    /// Fetch the image at `url`, which the peer keeps as `content`, and save it
    /// as `path`: did it work?
    Fetch { content: String, url: String, path: String },
    /// Store this clip: did it work?
    Insert { row: NewClip },
    /// Nothing: so many clips were stored.
    Done { imported: usize },
}

/// What an `ImportStep` holds.
pub enum ImportStepView {
    LookUp { content_hash: Seq<char> },
    Fetch { content: Seq<char>, url: Seq<char>, path: Seq<char> },
    Insert { row: SyncClipView, pinned: bool },
    Done { imported: int },
}

impl View for ImportStep {
    type V = ImportStepView;

    open spec fn view(&self) -> ImportStepView {
        match self {
            ImportStep::LookUp { content_hash } => ImportStepView::LookUp {
                content_hash: content_hash@,
            },
            ImportStep::Fetch { content, url, path } => ImportStepView::Fetch {
                content: content@,
                url: url@,
                path: path@,
            },
            ImportStep::Insert { row } => ImportStepView::Insert {
                row: row.clip@,
                pinned: row.pinned,
            },
            ImportStep::Done { imported } => ImportStepView::Done { imported: *imported as int },
        }
    }
}

/// `c`, where it is a letter or a digit, else an underscore.
pub open spec fn safe_char(c: char) -> char {
    if alphanumeric(c) {
        c
    } else {
        '_'
    }
}

/// `name` with an underscore for all but letters and digits.
pub open spec fn safe_name(name: Seq<char>) -> Seq<char> {
    name.map_values(|c: char| safe_char(c))
}

/// What stands behind the last slash of `path`.
pub open spec fn file_name(path: Seq<char>) -> Seq<char> {
    pieces(path, |c: char| c == '/').last()
}

/// Where the image at `remote_path` of the peer with the safe name `safe` is
/// saved.
pub open spec fn image_path(remote_path: Seq<char>, safe: Seq<char>) -> Seq<char> {
    "clip_images/sync_"@ + safe + "_"@ + file_name(remote_path)
}

/// `clip` is an image: its content is the path of a file.
pub open spec fn is_image(clip: SyncClipView) -> bool {
    clip.content_type == "image"@
}

/// `clip`, as it is stored here: the content of an image is where it was saved.
pub open spec fn localized(peer: PeerView, clip: SyncClipView) -> SyncClipView {
    if is_image(clip) {
        SyncClipView { content: image_path(clip.content, safe_name(peer.name)), ..clip }
    } else {
        clip
    }
}

/// The start of an exchange with `peer`, which has the clips `list`.
pub open spec fn import_start(peer: PeerView, list: Seq<SyncClipView>) -> ImportView {
    ImportView {
        peer,
        list,
        next: 0,
        imported: 0,
        stage: if list.len() > 0 {
            ImportStage::LookUp
        } else {
            ImportStage::Done
        },
    }
}

/// The exchange `state`, with the next clip to be looked at.
pub open spec fn import_next(state: ImportView, imported: int) -> ImportView {
    ImportView {
        next: state.next + 1,
        imported,
        stage: if state.next + 1 < state.list.len() {
            ImportStage::LookUp
        } else {
            ImportStage::Done
        },
        ..state
    }
}

/// The exchange `state` after the answer to what was to be done. A clip that is
/// known ends it, for all behind it are known too. A clip whose image could not
/// be fetched is passed over.
pub open spec fn import_answered(state: ImportView, yes: bool) -> ImportView {
    match state.stage {
        ImportStage::LookUp => ImportView {
            stage: if yes {
                ImportStage::Done
            } else if is_image(state.list[state.next]) {
                ImportStage::Fetch
            } else {
                ImportStage::Insert
            },
            ..state
        },
        ImportStage::Fetch => if yes {
            ImportView { stage: ImportStage::Insert, ..state }
        } else {
            import_next(state, state.imported)
        },
        ImportStage::Insert => import_next(
            state,
            if yes {
                state.imported + 1
            } else {
                state.imported
            },
        ),
        ImportStage::Done => state,
    }
}

/// What has to be done next in the exchange `state`.
pub open spec fn import_step(state: ImportView) -> ImportStepView {
    let clip = state.list[state.next];
    match state.stage {
        ImportStage::LookUp => ImportStepView::LookUp { content_hash: clip.content_hash },
        ImportStage::Fetch => ImportStepView::Fetch {
            content: clip.content,
            url: url_of(state.peer.ip, state.peer.port, "/"@ + clip.content),
            path: image_path(clip.content, safe_name(state.peer.name)),
        },
        ImportStage::Insert => ImportStepView::Insert {
            row: localized(state.peer, clip),
            pinned: false,
        },
        ImportStage::Done => ImportStepView::Done { imported: state.imported },
    }
}

/// The place of the next clip and the number of stored ones are in range.
pub open spec fn import_in_range(state: ImportView) -> bool {
    &&& 0 <= state.imported <= state.next <= state.list.len()
    &&& !(state.stage is Done) ==> state.next < state.list.len()
}

/// `name` with an underscore for all but letters and digits.
fn safe_name_of(name: &str) -> (safe: String)
    ensures
        safe@ == safe_name(name@),
{
    let chars = chars_of(name);
    let mut safe = String::new();
    for i in 0..chars.len()
        invariant
            safe@ =~= safe_name(chars@.take(i as int)),
    {
        let c = chars[i];
        if c.is_alphanumeric() {
            safe.push(c);
        } else {
            safe.push('_');
        }
        assert(chars@.take(i + 1) =~= chars@.take(i as int).push(c));
    }
    assert(chars@.take(chars@.len() as int) =~= chars@);
    safe
}

/// Where the image at `remote_path` of the peer with the safe name `safe` is
/// saved.
pub fn image_path_for(remote_path: &str, safe: &str) -> (path: String)
    ensures
        path@ == image_path(remote_path@, safe@),
{
    let chars = chars_of(remote_path);
    let marks = vec!['/'];
    proof {
        assert forall|c: char| marks@.contains(c) == (c == '/') by {
            assert(marks@[0] == '/');
        }
        assert((|c: char| marks@.contains(c)) =~= (|c: char| c == '/'));
        crate::text::lemma_some_piece(remote_path@, |c: char| c == '/');
    }
    let parts = split_on(chars.as_slice(), marks.as_slice());
    let last = &parts[parts.len() - 1];
    assert(last@ == views(parts@).last());
    let mut path = "clip_images/sync_".to_string();
    path.append(safe);
    path.append("_");
    path.append(string_of(last.as_slice()).as_str());
    path
}

/// Where the image at `remote_path` of the peer called `peer_name` is saved.
pub fn local_image_path(remote_path: &str, peer_name: &str) -> (path: String)
    ensures
        path@ == image_path(remote_path@, safe_name(peer_name@)),
{
    image_path_for(remote_path, safe_name_of(peer_name).as_str())
}

/// Where the image at `remote_path` is fetched from `peer`.
pub fn image_url(peer: &Peer, remote_path: &str) -> (url: String)
    ensures
        url@ == url_of(peer@.ip, peer@.port, "/"@ + remote_path@),
{
    let mut path = "/".to_string();
    path.append(remote_path);
    url_to(peer.ip.as_str(), peer.port, path.as_str())
}

impl Clone for SyncClip {
    fn clone(&self) -> (copy: Self)
        ensures
            copy@ == self@,
    {
        SyncClip {
            content: self.content.clone(),
            content_type: self.content_type.clone(),
            device_id: self.device_id.clone(),
            created_at: self.created_at.clone(),
            ocr_text: self.ocr_text.clone(),
            content_hash: self.content_hash.clone(),
            language: self.language.clone(),
            is_sensitive: self.is_sensitive,
            digest: self.digest.clone(),
        }
    }
}

impl View for Import {
    type V = ImportView;

    closed spec fn view(&self) -> ImportView {
        ImportView {
            peer: self.peer@,
            list: clips(self.list@),
            next: self.next as int,
            imported: self.imported as int,
            stage: self.stage,
        }
    }
}

impl Import {
    #[verifier::type_invariant]
    spec fn in_range(&self) -> bool {
        &&& self.imported <= self.next <= self.list@.len()
        &&& !(self.stage is Done) ==> self.next < self.list@.len()
    }

    /// Starts an exchange with `peer`, which has the clips `list`.
    pub fn start(peer: Peer, list: Vec<SyncClip>) -> (import: Self)
        ensures
            import@ == import_start(peer@, clips(list@)),
    {
        let stage = if list.len() > 0 {
            ImportStage::LookUp
        } else {
            ImportStage::Done
        };
        Import { peer, list, next: 0, imported: 0, stage }
    }

    /// What has to be done next.
    pub fn step(&self) -> (step: ImportStep)
        ensures
            step@ == import_step(self@),
            import_in_range(self@),
    {
        proof {
            use_type_invariant(&*self);
        }
        match self.stage {
            ImportStage::LookUp => {
                let clip = &self.list[self.next];
                assert(clip@ == self@.list[self@.next]);
                ImportStep::LookUp { content_hash: clip.content_hash.clone() }
            },
            ImportStage::Fetch => {
                let clip = &self.list[self.next];
                assert(clip@ == self@.list[self@.next]);
                ImportStep::Fetch {
                    content: clip.content.clone(),
                    url: image_url(&self.peer, clip.content.as_str()),
                    path: local_image_path(clip.content.as_str(), self.peer.name.as_str()),
                }
            },
            ImportStage::Insert => {
                let clip = &self.list[self.next];
                assert(clip@ == self@.list[self@.next]);
                let mut row = clip.clone();
                if same_text(clip.content_type.as_str(), "image") {
                    row.content = local_image_path(
                        clip.content.as_str(),
                        self.peer.name.as_str(),
                    );
                }
                ImportStep::Insert { row: NewClip { clip: row, pinned: false } }
            },
            ImportStage::Done => ImportStep::Done { imported: self.imported },
        }
    }

    /// Takes the answer to what had to be done.
    pub fn answer(self, yes: bool) -> (import: Self)
        ensures
            import@ == import_answered(self@, yes),
    {
        proof {
            use_type_invariant(&self);
        }
        let Import { peer, list, next, imported, stage } = self;
        let count = list.len();
        match stage {
            ImportStage::LookUp => {
                let clip = &list[next];
                assert(clip@ == self@.list[self@.next]);
                let stage = if yes {
                    ImportStage::Done
                } else if same_text(clip.content_type.as_str(), "image") {
                    ImportStage::Fetch
                } else {
                    ImportStage::Insert
                };
                Import { peer, list, next, imported, stage }
            },
            ImportStage::Fetch => {
                if yes {
                    Import { peer, list, next, imported, stage: ImportStage::Insert }
                } else {
                    let stage = if next + 1 < count {
                        ImportStage::LookUp
                    } else {
                        ImportStage::Done
                    };
                    Import { peer, list, next: next + 1, imported, stage }
                }
            },
            ImportStage::Insert => {
                let stored: usize = if yes {
                    imported + 1
                } else {
                    imported
                };
                let stage = if next + 1 < count {
                    ImportStage::LookUp
                } else {
                    ImportStage::Done
                };
                Import { peer, list, next: next + 1, imported: stored, stage }
            },
            ImportStage::Done => Import { peer, list, next, imported, stage: ImportStage::Done },
        }
    }
}

/// Keeps how an exchange with a peer went: at time `now` with so many clips
/// stored, or with an error.
pub fn record_exchange(
    status_map: &mut SyncStatusMap,
    peer_name: &str,
    outcome: Result<usize, String>,
    now: String,
)
    ensures
        final(status_map)@ == old(status_map)@.insert(
            peer_name@,
            match outcome {
                Ok(imported) => (PeerSyncStatus {
                    last_synced_at: Some(now),
                    last_imported: imported,
                    last_error: None,
                }),
                Err(error) => (PeerSyncStatus {
                    last_synced_at: None,
                    last_imported: 0,
                    last_error: Some(error),
                }),
            },
        ),
{
    match outcome {
        Ok(imported) => update_sync_status(status_map, peer_name, Some(now), imported, None),
        Err(error) => update_sync_status(status_map, peer_name, None, 0, Some(error)),
    }
}

/// What an exchange meets with: the hashes of the clips that are known, and
/// which images can be fetched and which clips stored.
pub struct World {
    pub known: Set<Seq<char>>,
    pub fetches: spec_fn(SyncClipView) -> bool,
    pub stores: spec_fn(SyncClipView) -> bool,
}

/// `world`, with one more clip known.
pub open spec fn learned(world: World, clip: SyncClipView) -> World {
    World { known: world.known.insert(clip.content_hash), ..world }
}

/// The exchange `state` and the world after it ran to its end in `world`.
pub open spec fn import_run(state: ImportView, world: World) -> (ImportView, World)
    decreases
            state.list.len() - state.next,
            (match state.stage {
                ImportStage::LookUp => 3int,
                ImportStage::Fetch => 2int,
                ImportStage::Insert => 1int,
                ImportStage::Done => 0int,
            }),
{
    let clip = state.list[state.next];
    if !(0 <= state.next < state.list.len()) {
        (state, world)
    } else {
        match state.stage {
            ImportStage::LookUp => import_run(
                import_answered(state, world.known.contains(clip.content_hash)),
                world,
            ),
            ImportStage::Fetch => import_run(import_answered(state, (world.fetches)(clip)), world),
            ImportStage::Insert => if (world.stores)(clip) {
                import_run(import_answered(state, true), learned(world, clip))
            } else {
                import_run(import_answered(state, false), world)
            },
            ImportStage::Done => (state, world),
        }
    }
}

/// The steps by which the exchange `state`, run to its end in `world`, stored a
/// clip, in order.
pub open spec fn stored_rows(state: ImportView, world: World) -> Seq<ImportStepView>
    decreases
            state.list.len() - state.next,
            (match state.stage {
                ImportStage::LookUp => 3int,
                ImportStage::Fetch => 2int,
                ImportStage::Insert => 1int,
                ImportStage::Done => 0int,
            }),
{
    let clip = state.list[state.next];
    if !(0 <= state.next < state.list.len()) {
        Seq::empty()
    } else {
        match state.stage {
            ImportStage::LookUp => stored_rows(
                import_answered(state, world.known.contains(clip.content_hash)),
                world,
            ),
            ImportStage::Fetch => stored_rows(
                import_answered(state, (world.fetches)(clip)),
                world,
            ),
            ImportStage::Insert => if (world.stores)(clip) {
                seq![import_step(state)] + stored_rows(
                    import_answered(state, true),
                    learned(world, clip),
                )
            } else {
                stored_rows(import_answered(state, false), world)
            },
            ImportStage::Done => Seq::empty(),
        }
    }
}

/// The step that stores a clip of `peer`: with its image where it was saved
/// here, and not pinned.
pub open spec fn stored_row(peer: PeerView) -> spec_fn(SyncClipView) -> ImportStepView {
    |clip: SyncClipView| ImportStepView::Insert { row: localized(peer, clip), pinned: false }
}

/// The clips of `list` that are stored in `world`: from the first on up to one
/// that is known, those that can be fetched and stored.
pub open spec fn taken_over(list: Seq<SyncClipView>, world: World) -> Seq<SyncClipView>
    decreases list.len(),
{
    if list.len() == 0 || world.known.contains(list[0].content_hash) {
        Seq::empty()
    } else if (is_image(list[0]) && !(world.fetches)(list[0])) || !(world.stores)(list[0]) {
        taken_over(list.skip(1), world)
    } else {
        seq![list[0]] + taken_over(list.skip(1), learned(world, list[0]))
    }
}

/// The hashes of `list`.
pub open spec fn hashes(list: Seq<SyncClipView>) -> Set<Seq<char>> {
    list.map_values(|clip: SyncClipView| clip.content_hash).to_set()
}

/// An exchange stores the clips from the first on up to one that is known,
/// without those that could not be fetched or stored: in order, each with its
/// image where it was saved here, and not pinned. It counts them, they are known
/// from then on, and it ends.
pub proof fn law_import_takes_over(peer: PeerView, list: Seq<SyncClipView>, world: World)
    ensures
        stored_rows(import_start(peer, list), world) == taken_over(list, world).map_values(
            stored_row(peer),
        ),
        import_run(import_start(peer, list), world).0.stage is Done,
        import_run(import_start(peer, list), world).0.imported == taken_over(list, world).len(),
        import_run(import_start(peer, list), world).1.known == world.known + hashes(
            taken_over(list, world),
        ),
{
    assert(list.skip(0) =~= list);
    lemma_import_from(import_start(peer, list), world);
}

/// From the look-up of a clip on, an exchange stores what is left to be stored.
proof fn lemma_import_from(state: ImportView, world: World)
    requires
        0 <= state.next <= state.list.len(),
        state.stage == (if state.next < state.list.len() {
            ImportStage::LookUp
        } else {
            ImportStage::Done
        }),
    ensures
        stored_rows(state, world) == taken_over(state.list.skip(state.next), world).map_values(
            stored_row(state.peer),
        ),
        import_run(state, world).0.stage is Done,
        import_run(state, world).0.imported == state.imported + taken_over(
            state.list.skip(state.next),
            world,
        ).len(),
        import_run(state, world).1.known == world.known + hashes(
            taken_over(state.list.skip(state.next), world),
        ),
    decreases state.list.len() - state.next,
{
    let rest = state.list.skip(state.next);
    let row = stored_row(state.peer);
    if state.next == state.list.len() {
        assert(taken_over(rest, world).map_values(row) =~= Seq::empty());
        assert(hashes(taken_over(rest, world)) =~= Set::empty());
        assert(world.known + hashes(taken_over(rest, world)) =~= world.known);
    } else {
        let clip = state.list[state.next];
        assert(rest[0] == clip);
        assert(rest.skip(1) =~= state.list.skip(state.next + 1));
        let looked_up = import_answered(state, world.known.contains(clip.content_hash));
        assert(import_run(state, world) == import_run(looked_up, world));
        assert(stored_rows(state, world) == stored_rows(looked_up, world));
        if world.known.contains(clip.content_hash) {
            assert(taken_over(rest, world).map_values(row) =~= Seq::empty());
            assert(hashes(taken_over(rest, world)) =~= Set::empty());
            assert(world.known + hashes(taken_over(rest, world)) =~= world.known);
        } else if is_image(clip) && !(world.fetches)(clip) {
            let passed = import_answered(looked_up, false);
            assert(import_run(looked_up, world) == import_run(passed, world));
            assert(stored_rows(looked_up, world) == stored_rows(passed, world));
            lemma_import_from(passed, world);
        } else {
            let fetched = if is_image(clip) {
                import_answered(looked_up, true)
            } else {
                looked_up
            };
            assert(import_run(looked_up, world) == import_run(fetched, world));
            assert(stored_rows(looked_up, world) == stored_rows(fetched, world));
            if (world.stores)(clip) {
                let stored = import_answered(fetched, true);
                let after = learned(world, clip);
                assert(import_run(fetched, world) == import_run(stored, after));
                assert(stored_rows(fetched, world) == seq![import_step(fetched)] + stored_rows(
                    stored,
                    after,
                ));
                lemma_import_from(stored, after);
                let more = taken_over(rest.skip(1), after);
                assert(taken_over(rest, world) == seq![clip] + more);
                assert((seq![clip] + more).map_values(row) =~= seq![row(clip)] + more.map_values(
                    row,
                ));
                lemma_hashes_of_more(clip, more);
                assert(world.known + hashes(seq![clip] + more) =~= after.known + hashes(more));
            } else {
                let refused = import_answered(fetched, false);
                assert(import_run(fetched, world) == import_run(refused, world));
                assert(stored_rows(fetched, world) == stored_rows(refused, world));
                lemma_import_from(refused, world);
            }
        }
    }
}

/// One more clip adds its hash.
proof fn lemma_hashes_of_more(clip: SyncClipView, more: Seq<SyncClipView>)
    ensures
        hashes(seq![clip] + more) == hashes(more).insert(clip.content_hash),
{
    let hash = |clip: SyncClipView| clip.content_hash;
    let longer = seq![clip] + more;
    assert forall|h: Seq<char>| hashes(longer).contains(h) == hashes(more).insert(
        clip.content_hash,
    ).contains(h) by {
        if hashes(longer).contains(h) {
            let i = longer.map_values(hash).index_of(h);
            if i > 0 {
                assert(more.map_values(hash)[i - 1] == h);
            }
        }
        if hashes(more).contains(h) {
            let i = more.map_values(hash).index_of(h);
            assert(longer.map_values(hash)[i + 1] == h);
        }
        if h == clip.content_hash {
            assert(longer.map_values(hash)[0] == h);
        }
    }
    assert(hashes(longer) =~= hashes(more).insert(clip.content_hash));
}

/// Where what `list` brought is known, it brings nothing more.
proof fn lemma_nothing_left(list: Seq<SyncClipView>, world: World, after: World)
    requires
        after.fetches == world.fetches,
        after.stores == world.stores,
        world.known.subset_of(after.known),
        hashes(taken_over(list, world)).subset_of(after.known),
    ensures
        taken_over(list, after).len() == 0,
    decreases list.len(),
{
    if list.len() > 0 && !world.known.contains(list[0].content_hash) {
        let rest = list.skip(1);
        if (is_image(list[0]) && !(world.fetches)(list[0])) || !(world.stores)(list[0]) {
            lemma_nothing_left(rest, world, after);
        } else {
            lemma_hashes_of_more(list[0], taken_over(rest, learned(world, list[0])));
            assert(hashes(taken_over(list, world)).contains(list[0].content_hash));
        }
    }
}

/// A second exchange over the same clips stores nothing, where no more images
/// can be fetched and no more clips stored than at the first one.
pub proof fn law_second_import_is_idle(peer: PeerView, list: Seq<SyncClipView>, world: World)
    ensures
        ({
            let after = World {
                known: import_run(import_start(peer, list), world).1.known,
                ..world
            };
            &&& import_run(import_start(peer, list), after).0.imported == 0
            &&& import_run(import_start(peer, list), after).1.known == after.known
        }),
{
    let after = World { known: import_run(import_start(peer, list), world).1.known, ..world };
    law_import_takes_over(peer, list, world);
    law_import_takes_over(peer, list, after);
    lemma_nothing_left(list, world, after);
    assert(taken_over(list, after) =~= Seq::empty());
    assert(hashes(taken_over(list, after)) =~= Set::empty());
    assert(after.known + Set::empty() =~= after.known);
}

/// Whatever the answers are, an exchange never counts more clips than it looked
/// at, and each answer brings it nearer to its end.
pub proof fn law_import_stays_in_range(state: ImportView, yes: bool)
    requires
        import_in_range(state),
        !(state.stage is Done),
    ensures
        import_in_range(import_answered(state, yes)),
        import_answered(state, yes).next == state.next + 1 || import_answered(state, yes).stage
            is Done || (state.stage is LookUp && !(import_answered(state, yes).stage is LookUp))
            || (state.stage is Fetch && import_answered(state, yes).stage is Insert),
{
}

/// A clip is stored as the peer holds it, image or not: with its type, device,
/// time, recognised text, hash, language, mark and summary. Its content is the
/// same too, but for an image, whose content is where it was saved here.
pub proof fn law_stored_clip_keeps_what_it_holds(state: ImportView, clip: SyncClipView)
    requires
        state.stage is Insert,
        0 <= state.next < state.list.len(),
        clip == state.list[state.next],
    ensures
        import_step(state) matches ImportStepView::Insert { row, pinned } && {
            &&& !pinned
            &&& row.content_type == clip.content_type
            &&& row.device_id == clip.device_id
            &&& row.created_at == clip.created_at
            &&& row.ocr_text == clip.ocr_text
            &&& row.content_hash == clip.content_hash
            &&& row.language == clip.language
            &&& row.is_sensitive == clip.is_sensitive
            &&& row.digest == clip.digest
            &&& clip.content_type != "image"@ ==> row.content == clip.content
            &&& clip.content_type == "image"@ ==> row.content == "clip_images/sync_"@ + safe_name(
                state.peer.name,
            ) + "_"@ + file_name(clip.content)
        },
{
}

/// Each row that an exchange stores keeps what the clip holds that it stands for.
pub proof fn law_stored_rows_keep_what_the_clips_hold(
    peer: PeerView,
    list: Seq<SyncClipView>,
    world: World,
    i: int,
)
    requires
        0 <= i < taken_over(list, world).len(),
    ensures
        stored_rows(import_start(peer, list), world).len() == taken_over(list, world).len(),
        list.contains(taken_over(list, world)[i]),
        stored_rows(import_start(peer, list), world)[i] matches ImportStepView::Insert {
            row,
            pinned,
        } && {
            let clip = taken_over(list, world)[i];
            &&& !pinned
            &&& row.content_type == clip.content_type
            &&& row.device_id == clip.device_id
            &&& row.created_at == clip.created_at
            &&& row.ocr_text == clip.ocr_text
            &&& row.content_hash == clip.content_hash
            &&& row.language == clip.language
            &&& row.is_sensitive == clip.is_sensitive
            &&& row.digest == clip.digest
            &&& clip.content_type != "image"@ ==> row.content == clip.content
            &&& clip.content_type == "image"@ ==> row.content == "clip_images/sync_"@ + safe_name(
                peer.name,
            ) + "_"@ + file_name(clip.content)
        },
{
    law_import_takes_over(peer, list, world);
    lemma_taken_from_the_list(list, world, i);
    let clip = taken_over(list, world)[i];
    assert(stored_rows(import_start(peer, list), world)[i] == stored_row(peer)(clip));
}

/// What is taken over comes from the list.
proof fn lemma_taken_from_the_list(list: Seq<SyncClipView>, world: World, i: int)
    requires
        0 <= i < taken_over(list, world).len(),
    ensures
        list.contains(taken_over(list, world)[i]),
    decreases list.len(),
{
    let rest = list.skip(1);
    assert(forall|k: int| 0 <= k < rest.len() ==> rest[k] == list[k + 1]);
    if (is_image(list[0]) && !(world.fetches)(list[0])) || !(world.stores)(list[0]) {
        lemma_taken_from_the_list(rest, world, i);
        let k = rest.index_of(taken_over(list, world)[i]);
        assert(list[k + 1] == taken_over(list, world)[i]);
    } else if i > 0 {
        lemma_taken_from_the_list(rest, learned(world, list[0]), i - 1);
        let k = rest.index_of(taken_over(list, world)[i]);
        assert(list[k + 1] == taken_over(list, world)[i]);
    } else {
        assert(list[0] == taken_over(list, world)[i]);
    }
}

/// Of clips that can be fetched and stored all are taken over up to the first one
/// that is known, however many there are; those behind it are not looked at.
pub proof fn law_all_new_clips_are_taken_over(
    new: Seq<SyncClipView>,
    known: SyncClipView,
    behind: Seq<SyncClipView>,
    world: World,
)
    requires
        forall|i: int|
            0 <= i < new.len() ==> !world.known.contains((#[trigger] new[i]).content_hash)
                && (new[i].content_type == "image"@ ==> (world.fetches)(new[i])) && (world.stores)(
                new[i],
            ),
        forall|i: int, j: int|
            0 <= i < j < new.len() ==> (#[trigger] new[i]).content_hash != (
            #[trigger] new[j]).content_hash,
        world.known.contains(known.content_hash),
    ensures
        taken_over(new, world) == new,
        taken_over(new.push(known) + behind, world) == new,
    decreases new.len(),
{
    let list = new.push(known) + behind;
    if new.len() == 0 {
        assert(list[0] == known);
        assert(taken_over(new, world) =~= new);
        assert(taken_over(list, world) =~= new);
    } else {
        let first = new[0];
        let rest = new.skip(1);
        let after = learned(world, first);
        assert(list[0] == first);
        assert(list.skip(1) =~= rest.push(known) + behind);
        assert forall|i: int| 0 <= i < rest.len() implies !after.known.contains(
            (#[trigger] rest[i]).content_hash,
        ) && (rest[i].content_type == "image"@ ==> (after.fetches)(rest[i])) && (after.stores)(
            rest[i],
        ) by {
            assert(rest[i] == new[i + 1]);
            assert(new[0].content_hash != new[i + 1].content_hash);
        }
        assert forall|i: int, j: int| 0 <= i < j < rest.len() implies (
        #[trigger] rest[i]).content_hash != (#[trigger] rest[j]).content_hash by {
            assert(rest[i] == new[i + 1] && rest[j] == new[j + 1]);
        }
        law_all_new_clips_are_taken_over(rest, known, behind, after);
        assert(seq![first] + rest =~= new);
    }
}

/// What an exchange asks for: whether the hash of a clip is known, and the image
/// of a clip at the peer's own address.
pub proof fn law_exchange_asks_for_the_clip_it_looks_at(state: ImportView, clip: SyncClipView)
    requires
        0 <= state.next < state.list.len(),
        clip == state.list[state.next],
    ensures
        state.stage is LookUp ==> import_step(state) == (ImportStepView::LookUp {
            content_hash: clip.content_hash,
        }),
        state.stage is Fetch ==> import_step(state) == (ImportStepView::Fetch {
            content: clip.content,
            url: "http://"@ + state.peer.ip + ":"@ + crate::number::decimal(
                state.peer.port as nat,
            ) + ("/"@ + clip.content),
            path: "clip_images/sync_"@ + safe_name(state.peer.name) + "_"@ + file_name(
                clip.content,
            ),
        }),
        state.stage is Done ==> import_step(state) == (ImportStepView::Done {
            imported: state.imported,
        }),
{
}

/// How an exchange goes on: a known clip ends it; an image is fetched before it is
/// stored, and passed over where that fails; each clip that is stored counts, and
/// the next one is looked at until there is none.
pub proof fn law_exchange_goes_on_clip_by_clip(state: ImportView, yes: bool)
    requires
        0 <= state.next < state.list.len(),
    ensures
        import_answered(state, yes).peer == state.peer,
        import_answered(state, yes).list == state.list,
        state.stage is LookUp ==> {
            let after = import_answered(state, yes);
            &&& after.next == state.next && after.imported == state.imported
            &&& yes ==> after.stage is Done
            &&& !yes && state.list[state.next].content_type == "image"@ ==> after.stage is Fetch
            &&& !yes && state.list[state.next].content_type != "image"@ ==> after.stage is Insert
        },
        state.stage is Fetch && yes ==> {
            let after = import_answered(state, yes);
            &&& after.next == state.next && after.imported == state.imported
            &&& after.stage is Insert
        },
        (state.stage is Fetch && !yes) || state.stage is Insert ==> {
            let after = import_answered(state, yes);
            &&& after.next == state.next + 1
            &&& after.imported == state.imported + (if state.stage is Insert && yes {
                1int
            } else {
                0int
            })
            &&& state.next + 1 < state.list.len() ==> after.stage is LookUp
            &&& state.next + 1 == state.list.len() ==> after.stage is Done
        },
        state.stage is Done ==> import_answered(state, yes) == state,
{
}

/// An exchange starts with the first clip of the list, and is over at once where
/// there is none.
pub proof fn law_exchange_starts_with_the_first_clip(peer: PeerView, list: Seq<SyncClipView>)
    ensures
        import_start(peer, list).peer == peer,
        import_start(peer, list).list == list,
        import_start(peer, list).next == 0,
        import_start(peer, list).imported == 0,
        list.len() > 0 ==> import_start(peer, list).stage is LookUp,
        list.len() == 0 ==> import_start(peer, list).stage is Done,
{
}

/// Letters and digits of a name stay, and all else becomes an underscore,
/// character by character.
pub proof fn law_name_is_made_safe(name: Seq<char>, i: int)
    ensures
        safe_name(name).len() == name.len(),
        0 <= i < name.len() && alphanumeric(name[i]) ==> safe_name(name)[i] == name[i],
        0 <= i < name.len() && !alphanumeric(name[i]) ==> safe_name(name)[i] == '_',
{
}

/// The name of a file is what stands behind the last slash of its path, or all of
/// it where there is none.
pub proof fn law_file_name_is_behind_the_last_slash(before: Seq<char>, name: Seq<char>)
    requires
        !name.contains('/'),
    ensures
        file_name(name) == name,
        file_name(before.push('/') + name) == name,
{
    let slash = |c: char| c == '/';
    assert forall|i: int| 0 <= i < name.len() implies !slash(#[trigger] name[i]) by {
        assert(name.contains(name[i]));
    }
    crate::text::lemma_one_piece(name, slash);
    crate::text::law_cut_parts_the_pieces(before, '/', name, slash);
    assert(pieces(before.push('/') + name, slash).last() == name);
}

/// The image of a peer is saved under the peer's name and its own.
pub proof fn law_image_is_saved_under_both_names(remote_path: Seq<char>, safe: Seq<char>)
    ensures
        image_path(remote_path, safe) == "clip_images/sync_"@ + safe + "_"@ + file_name(
            remote_path,
        ),
{
}

/// Clips, lists of them and steps are seen whole.
pub proof fn law_synced_clips_are_seen_whole(
    clip: SyncClip,
    list: Seq<SyncClip>,
    i: int,
    step: ImportStep,
)
    ensures
        clip@.content == clip.content@,
        clip@.content_type == clip.content_type@,
        clip@.device_id == clip.device_id@,
        clip@.created_at == clip.created_at@,
        clip@.ocr_text == maybe(clip.ocr_text),
        clip@.content_hash == clip.content_hash@,
        clip@.language == maybe(clip.language),
        clip@.is_sensitive == clip.is_sensitive,
        clip@.digest == maybe(clip.digest),
        clips(list).len() == list.len(),
        0 <= i < list.len() ==> clips(list)[i] == list[i]@,
        step matches ImportStep::LookUp { content_hash } ==> step@ == (ImportStepView::LookUp {
            content_hash: content_hash@,
        }),
        step matches ImportStep::Fetch { content, url, path } ==> step@ == (
        ImportStepView::Fetch { content: content@, url: url@, path: path@ }),
        step matches ImportStep::Insert { row } ==> step@ == (ImportStepView::Insert {
            row: row.clip@,
            pinned: row.pinned,
        }),
        step matches ImportStep::Done { imported } ==> step@ == (ImportStepView::Done {
            imported: imported as int,
        }),
{
}

} // verus!
