//! The package: the two records for window and web view, and the tree of
//! stored files that paths are resolved against.

use vstd::prelude::*;
use crate::codec::{decoded, file_result, File, FileView};
use crate::config::{WebViewAttr, WindowAttr};
use crate::error::DataError;
use crate::path::{components, path_components};
use crate::text::same_text;
use crate::tree::{built, walk, Dir, DirView, SourceEntry};

verus! {

/// A package. It is built once and then only read.
#[derive(Debug)]
pub struct Data {
    pub window_attr: WindowAttr,
    pub webview_attr: WebViewAttr,
    fs: Dir,
}

/// What a package holds.
pub struct DataView {
    /// The record for the window.
    pub window_attr: WindowAttr,
    /// The record for the web view.
    pub webview_attr: WebViewAttr,
    /// The tree.
    pub fs: DirView,
}

impl View for Data {
    type V = DataView;

    closed spec fn view(&self) -> DataView {
        DataView { window_attr: self.window_attr, webview_attr: self.webview_attr, fs: self.fs@ }
    }
}

/// The package that mirrors a source directory with the given entries and
/// carries the given records.
pub open spec fn packaged(
    entries: Seq<SourceEntry>,
    window_attr: WindowAttr,
    webview_attr: WebViewAttr,
) -> Result<DataView, DataError> {
    match built(entries) {
        Ok(fs) => Ok(DataView { window_attr, webview_attr, fs }),
        Err(e) => Err(e),
    }
}

/// A result that carries a package, with the package as what it holds.
pub open spec fn data_result(r: Result<Data, DataError>) -> Result<DataView, DataError> {
    match r {
        Ok(data) => Ok(data@),
        Err(e) => Err(e),
    }
}

/// What opening `path` in the tree `dir` returns: the path is resolved to
/// its components, which never lead above the root, and these are walked
/// from the root.
pub open spec fn open_spec(dir: DirView, path: Seq<char>) -> Result<FileView, DataError> {
    walk(dir, components(path))
}

/// The path that is served where a single-page application asks for one
/// that does not exist.
pub open spec fn index_path() -> Seq<char> {
    "index.html"@
}

/// What is served for `path` from the tree `dir`: the file at `path`, or,
/// where there is none, the application is a single-page one and `path` is
/// not spelled `/index.html`, the file at `index.html`.
pub open spec fn serve_spec(dir: DirView, spa: bool, path: Seq<char>) -> Result<
    FileView,
    DataError,
> {
    match open_spec(dir, path) {
        Ok(file) => Ok(file),
        Err(e) => if e == DataError::NotFound && spa && path != "/index.html"@ {
            open_spec(dir, index_path())
        } else {
            Err(e)
        },
    }
}

/// What answers a request: a media type and the bytes of a file.
#[derive(Debug)]
pub struct Asset {
    pub mime: String,
    pub body: Vec<u8>,
}

/// What answers a request for `path`: the media type and the restored
/// bytes of the file that is served for it.
pub open spec fn respond_spec(dir: DirView, spa: bool, path: Seq<char>) -> Result<
    (Seq<char>, Seq<u8>),
    DataError,
> {
    match serve_spec(dir, spa, path) {
        Ok(file) => match decoded(file) {
            Ok(body) => Ok((file.mime, body)),
            Err(e) => Err(e),
        },
        Err(e) => Err(e),
    }
}

/// A result that carries an answer, with the answer as a pair of sequences.
pub open spec fn asset_result(r: Result<Asset, DataError>) -> Result<
    (Seq<char>, Seq<u8>),
    DataError,
> {
    match r {
        Ok(asset) => Ok((asset.mime@, asset.body@)),
        Err(e) => Err(e),
    }
}

impl Data {
    /// A package of the given parts.
    pub fn new(window_attr: WindowAttr, webview_attr: WebViewAttr, fs: Dir) -> (data: Data)
        ensures
            data@ == (DataView { window_attr, webview_attr, fs: fs@ }),
    {
        Data { window_attr, webview_attr, fs }
    }

    /// Builds the package of a source directory from the entries that were
    /// read there. The tree mirrors the directory as [`built`] says. Fails
    /// only where the compressor does.
    pub fn from_dir(
        entries: &Vec<SourceEntry>,
        window_attr: WindowAttr,
        webview_attr: WebViewAttr,
    ) -> (r: Result<Data, DataError>)
        ensures
            data_result(r) == packaged(entries@, window_attr, webview_attr),
    {
        let mut fs = Dir::new();
        match fs.fill_with(entries) {
            Ok(()) => Ok(Data { window_attr, webview_attr, fs }),
            Err(e) => Err(e),
        }
    }

    /// The root of the tree.
    pub fn root(&self) -> (dir: &Dir)
        ensures
            dir@ == self@.fs,
    {
        &self.fs
    }

    /// Opens the file at `path` and returns a copy of it. The path is
    /// resolved first, so that `/a/./b/../c` and `a/c` open the same file.
    /// Fails with [`DataError::NotFound`] where the path leads to no file.
    pub fn open(&self, path: &str) -> (r: Result<File, DataError>)
        ensures
            file_result(r) == open_spec(self@.fs, path@),
    {
        let names = path_components(path);
        self.fs.open_file(names.as_slice())
    }

    /// Opens the file to serve for `path`: the file at `path`, or the index
    /// page where there is none and the package is a single-page
    /// application.
    pub fn serve(&self, path: &str) -> (r: Result<File, DataError>)
        ensures
            file_result(r) == serve_spec(self@.fs, self@.webview_attr.spa, path@),
    {
        match self.open(path) {
            Ok(file) => Ok(file),
            Err(e) => {
                if e.is_not_found() && self.webview_attr.spa && !same_text(path, "/index.html") {
                    self.open("index.html")
                } else {
                    Err(e)
                }
            },
        }
    }

    /// Answers a request for `path` with the media type and the bytes of
    /// the file that is served for it. The bytes are restored for this
    /// answer alone: nothing is kept.
    pub fn respond(&self, path: &str) -> (r: Result<Asset, DataError>)
        ensures
            asset_result(r) == respond_spec(self@.fs, self@.webview_attr.spa, path@),
    {
        match self.serve(path) {
            Ok(file) => {
                let mut file = file;
                match file.decompressed_data() {
                    Ok(body) => Ok(Asset { mime: file.mimetype(), body }),
                    Err(e) => Err(e),
                }
            },
            Err(e) => Err(e),
        }
    }
}

} // verus!
