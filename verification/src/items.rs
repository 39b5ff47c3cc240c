//! The entries of the result list that the user interface shows.

use vstd::prelude::*;
use crate::error::AppError;
use crate::text::opt_chars;
use crate::registry::ResultRegistry;
use crate::names::{opt_text, zip_entry_target};

verus! {

/// One decrypted file as the user interface shows it.
pub struct ResultItem {
    /// The id the file is registered under.
    pub id: String,
    /// The name it is shown and saved under.
    pub name: String,
    /// `image`, `video` or `other`.
    pub kind: String,
    /// Its MIME type.
    pub content_type: String,
    /// Where the preview is loaded from; empty where there is none.
    pub preview_url: String,
    /// A hint shown with the preview, if any.
    pub note: Option<String>,
}

/// The note shown with a HEIF image.
pub open spec fn heic_note() -> Seq<char> {
    "HEIC 由系统 WebView 原生预览；如果当前系统无法显示，可先保存解密文件后用系统照片应用打开。"@
}

/// The note shown with a video.
pub open spec fn video_note() -> Seq<char> {
    "如果内嵌播放器无法播放，请使用系统播放器打开。"@
}

/// The note shown with a file that cannot be previewed.
pub open spec fn other_note() -> Seq<char> {
    "已解密，但当前版本无法直接预览此文件类型。"@
}

/// The MIME type assumed for a video whose type cannot be detected.
pub open spec fn default_video_type() -> Seq<char> {
    "video/mp4"@
}

/// Whether the item shows the given fields.
pub open spec fn shows(
    item: ResultItem,
    id: Seq<char>,
    name: Seq<char>,
    kind: Seq<char>,
    content_type: Seq<char>,
    preview_url: Seq<char>,
    note: Option<Seq<char>>,
) -> bool {
    &&& item.id@ == id
    &&& item.name@ == name
    &&& item.kind@ == kind
    &&& item.content_type@ == content_type
    &&& item.preview_url@ == preview_url
    &&& opt_chars(item.note) == note
}

/// An image, previewed from its file, with no note.
pub fn image_item(id: String, name: &str, content_type: &str, preview_url: String) -> (item:
    ResultItem)
    ensures
        shows(item, id@, name@, "image"@, content_type@, preview_url@, None),
{
    ResultItem {
        id,
        name: String::from_str(name),
        kind: String::from_str("image"),
        content_type: String::from_str(content_type),
        preview_url,
        note: None,
    }
}

/// A HEIF image, previewed from its file, with the note that the system's
/// web view may not show it.
pub fn heic_image_item(id: String, name: &str, content_type: &str, preview_url: String) -> (item:
    ResultItem)
    ensures
        shows(item, id@, name@, "image"@, content_type@, preview_url@, Some(heic_note())),
{
    ResultItem {
        id,
        name: String::from_str(name),
        kind: String::from_str("image"),
        content_type: String::from_str(content_type),
        preview_url,
        note: Some(
            String::from_str(
                "HEIC 由系统 WebView 原生预览；如果当前系统无法显示，可先保存解密文件后用系统照片应用打开。",
            ),
        ),
    }
}

/// A video, previewed from its file, of the detected MIME type (or
/// `video/mp4` where none was detected), with the note that the system's
/// player may be needed.
pub fn video_item(id: String, name: &str, detected_type: Option<String>, preview_url: String) -> (item:
    ResultItem)
    ensures
        shows(
            item,
            id@,
            name@,
            "video"@,
            match detected_type {
                Some(t) => t@,
                None => default_video_type(),
            },
            preview_url@,
            Some(video_note()),
        ),
{
    let content_type = match detected_type {
        Some(t) => t,
        None => String::from_str("video/mp4"),
    };
    ResultItem {
        id,
        name: String::from_str(name),
        kind: String::from_str("video"),
        content_type,
        preview_url,
        note: Some(String::from_str("如果内嵌播放器无法播放，请使用系统播放器打开。")),
    }
}

/// A file that cannot be previewed: no preview location, and a note saying
/// so.
pub fn other_item(id: String, name: &str, content_type: &str) -> (item: ResultItem)
    ensures
        shows(item, id@, name@, "other"@, content_type@, Seq::empty(), Some(other_note())),
{
    ResultItem {
        id,
        name: String::from_str(name),
        kind: String::from_str("other"),
        content_type: String::from_str(content_type),
        preview_url: String::new(),
        note: Some(String::from_str("已解密，但当前版本无法直接预览此文件类型。")),
    }
}

/// Registers `value` (the decrypted image) under a fresh id and builds its
/// entry: an image, previewed from its file, with no note. None, with
/// nothing registered, where the random source fails.
pub fn prepare_image<V>(
    reg: &mut ResultRegistry<V>,
    value: V,
    name: &str,
    content_type: &str,
    preview_url: String,
) -> (res: Option<ResultItem>)
    ensures
        match res {
            Some(item) => {
                &&& final(reg)@ == old(reg)@.insert(item.id@, value)
                &&& item.id@.len() == 32
                &&& shows(item, item.id@, name@, "image"@, content_type@, preview_url@, None)
            },
            None => final(reg)@ == old(reg)@,
        },
{
    let id = reg.register(value)?;
    Some(image_item(id, name, content_type, preview_url))
}

/// Registers `value` (the decrypted HEIF image) under a fresh id and builds
/// its entry: an image, previewed from its file, with the HEIF note. None,
/// with nothing registered, where the random source fails.
pub fn prepare_heic_image<V>(
    reg: &mut ResultRegistry<V>,
    value: V,
    name: &str,
    content_type: &str,
    preview_url: String,
) -> (res: Option<ResultItem>)
    ensures
        match res {
            Some(item) => {
                &&& final(reg)@ == old(reg)@.insert(item.id@, value)
                &&& item.id@.len() == 32
                &&& shows(
                    item,
                    item.id@,
                    name@,
                    "image"@,
                    content_type@,
                    preview_url@,
                    Some(heic_note()),
                )
            },
            None => final(reg)@ == old(reg)@,
        },
{
    let id = reg.register(value)?;
    Some(heic_image_item(id, name, content_type, preview_url))
}

/// Registers `value` (the decrypted video) under a fresh id and builds its
/// entry: a video of the detected MIME type (`video/mp4` where none was
/// detected), with the player note. None, with nothing registered, where the
/// random source fails.
pub fn prepare_video<V>(
    reg: &mut ResultRegistry<V>,
    value: V,
    name: &str,
    detected_type: Option<String>,
    preview_url: String,
) -> (res: Option<ResultItem>)
    ensures
        match res {
            Some(item) => {
                &&& final(reg)@ == old(reg)@.insert(item.id@, value)
                &&& item.id@.len() == 32
                &&& shows(
                    item,
                    item.id@,
                    name@,
                    "video"@,
                    match detected_type {
                        Some(t) => t@,
                        None => default_video_type(),
                    },
                    preview_url@,
                    Some(video_note()),
                )
            },
            None => final(reg)@ == old(reg)@,
        },
{
    let id = reg.register(value)?;
    Some(video_item(id, name, detected_type, preview_url))
}

/// Registers `value` (a decrypted file that cannot be previewed) under a
/// fresh id and builds its entry: no preview location, and the note saying
/// so. None, with nothing registered, where the random source fails.
pub fn prepare_other<V>(reg: &mut ResultRegistry<V>, value: V, name: &str, content_type: &str) -> (res:
    Option<ResultItem>)
    ensures
        match res {
            Some(item) => {
                &&& final(reg)@ == old(reg)@.insert(item.id@, value)
                &&& item.id@.len() == 32
                &&& shows(
                    item,
                    item.id@,
                    name@,
                    "other"@,
                    content_type@,
                    Seq::empty(),
                    Some(other_note()),
                )
            },
            None => final(reg)@ == old(reg)@,
        },
{
    let id = reg.register(value)?;
    Some(other_item(id, name, content_type))
}

/// The names under which the entries seen so far are decrypted, in archive
/// order (directories and entries without `.enc` are left out).
pub open spec fn selected_entries(seen: Seq<(Option<Seq<char>>, bool)>) -> Seq<Seq<char>>
    decreases seen.len(),
{
    if seen.len() == 0 {
        Seq::empty()
    } else {
        let rest = selected_entries(seen.drop_last());
        match zip_entry_target(seen.last().0, seen.last().1) {
            Some(n) => rest.push(n),
            None => rest,
        }
    }
}

/// What has been gathered from a zip archive so far.
struct Gathered<T> {
    items: Vec<T>,
    awaiting: bool,
    seen: Ghost<Seq<(Option<Seq<char>>, bool)>>,
}

/// The items decrypted from a zip archive, gathered entry by entry in
/// archive order: each entry is looked at with `select`, and the item of
/// each selected entry is added with `push` before the next entry is looked
/// at. `finish` hands out the items, one per selected entry.
pub struct ZipItems<T> {
    state: Gathered<T>,
}

impl<T> ZipItems<T> {
    #[verifier::type_invariant]
    spec fn one_item_per_selected_entry(self) -> bool {
        self.state.items@.len() + (if self.state.awaiting {
            1int
        } else {
            0
        }) == selected_entries(self.state.seen@).len()
    }

    /// The entries looked at so far, with whether each is a directory.
    pub closed spec fn entries_seen(self) -> Seq<(Option<Seq<char>>, bool)> {
        self.state.seen@
    }

    /// The items added so far, in order.
    pub closed spec fn items_so_far(self) -> Seq<T> {
        self.state.items@
    }

    /// Whether the last entry looked at was selected and waits for its item.
    pub closed spec fn awaiting(self) -> bool {
        self.state.awaiting
    }

    /// Nothing looked at, nothing gathered.
    pub fn new() -> (z: Self)
        ensures
            z.entries_seen() == Seq::<(Option<Seq<char>>, bool)>::empty(),
            z.items_so_far() == Seq::<T>::empty(),
            !z.awaiting(),
    {
        ZipItems { state: Gathered { items: Vec::new(), awaiting: false, seen: Ghost(Seq::empty()) } }
    }

    /// Whether the last entry looked at was selected and waits for its item.
    pub fn is_awaiting(&self) -> (b: bool)
        ensures
            b == self.awaiting(),
    {
        self.state.awaiting
    }

    /// Looks at the next entry of the archive, given the file name of its
    /// name (as `Path::file_name` gives it): the name it is decrypted under,
    /// or none if it is skipped (see `zip_entry_target`).
    pub fn select(&mut self, file_name: Option<&str>, is_dir: bool) -> (res: Option<String>)
        requires
            !old(self).awaiting(),
        ensures
            opt_chars(res) == zip_entry_target(opt_text(file_name), is_dir),
            final(self).entries_seen() == old(self).entries_seen().push((opt_text(file_name), is_dir)),
            final(self).items_so_far() == old(self).items_so_far(),
            final(self).awaiting() == res is Some,
    {
        proof {
            use_type_invariant(&*self);
        }
        let res = crate::names::zip_entry_name(file_name, is_dir);
        let mut st = Gathered { items: Vec::new(), awaiting: false, seen: Ghost(Seq::empty()) };
        std::mem::swap(&mut st, &mut self.state);
        let ghost seen = st.seen@.push((opt_text(file_name), is_dir));
        assert(seen.drop_last() =~= st.seen@);
        self.state = Gathered { items: st.items, awaiting: res.is_some(), seen: Ghost(seen) };
        res
    }

    /// Adds the item of the selected entry that waits for it.
    pub fn push(&mut self, item: T)
        requires
            old(self).awaiting(),
        ensures
            final(self).entries_seen() == old(self).entries_seen(),
            final(self).items_so_far() == old(self).items_so_far().push(item),
            !final(self).awaiting(),
            old(self).items_so_far().len() + 1 == selected_entries(old(self).entries_seen()).len(),
    {
        proof {
            use_type_invariant(&*self);
        }
        let mut st = Gathered { items: Vec::new(), awaiting: false, seen: Ghost(Seq::empty()) };
        std::mem::swap(&mut st, &mut self.state);
        let mut items = st.items;
        items.push(item);
        self.state = Gathered { items, awaiting: false, seen: st.seen };
    }

    /// The items, one per selected entry in archive order; the error that the
    /// archive held no encrypted file where no entry was selected.
    pub fn finish(self) -> (res: Result<Vec<T>, AppError>)
        requires
            !self.awaiting(),
        ensures
            match res {
                Ok(v) => v@ == self.items_so_far() && v@.len() == selected_entries(
                    self.entries_seen(),
                ).len() && v@.len() > 0,
                Err(e) => selected_entries(self.entries_seen()).len() == 0 && e
                    == AppError::NoEncryptedEntries,
            },
    {
        proof {
            use_type_invariant(&self);
        }
        let ZipItems { state } = self;
        if state.items.len() == 0 {
            Err(AppError::NoEncryptedEntries)
        } else {
            Ok(state.items)
        }
    }
}

} // verus!
