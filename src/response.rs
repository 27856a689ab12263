//! Responses to clients, the catalog records they carry, and their frame format.
//!
//! A response frame is a presence byte and the nonce (when there is one), one
//! tag byte naming the response, and that response's fields.
use vstd::prelude::*;
use crate::wire::{text_bytes, text_fits, text_fits_exec, u32_bytes, write_text, write_u32};

verus! {

/// A place on disk that the catalog indexes.
#[derive(Clone, Debug)]
pub struct Location {
    pub id: String,
    pub name: String,
    pub path: String,
}

/// A label that the catalog knows.
#[derive(Clone, Debug)]
pub struct Tag {
    pub id: String,
    pub name: String,
}

/// One file of a location's index.
#[derive(Clone, Debug)]
pub struct IndexEntry {
    pub hash: String,
    pub path: String,
    pub rating: i32,
}

/// What the catalog stores about one file.
#[derive(Clone, Debug)]
pub struct MetadataEntry {
    pub file: String,
    pub rating: i32,
}

/// Facts about the host, sent once when a client connects.
#[derive(Clone, Debug)]
pub struct SystemInfo {
    pub version: String,
    pub platform: String,
}

#[derive(Clone, Debug)]
pub enum ResponseBody {
    LocationList { locations: Vec<Location>, tags: Vec<Tag> },
    IndexList { entries: Vec<IndexEntry> },
    MetadataList { entries: Vec<MetadataEntry> },
    Image { pixels: Vec<u8>, width: u32, height: u32 },
    SystemInfo { info: SystemInfo },
    Error { message: String },
}

/// A response and the nonce of the request it answers; `None` only for the
/// greeting and for answers to frames that held no request.
#[derive(Clone, Debug)]
pub struct Response {
    pub nonce: Option<String>,
    pub body: ResponseBody,
}

/// A value that a response frame carries in lists.
pub trait Record: Sized {
    spec fn fits(&self) -> bool;

    spec fn record_bytes(&self) -> Seq<u8>;

    fn check_fits(&self) -> (r: bool)
        ensures
            r == self.fits(),
    ;

    fn write(&self, out: &mut Vec<u8>)
        requires
            self.fits(),
        ensures
            final(out)@ == old(out)@ + self.record_bytes(),
    ;
}

impl Record for Location {
    fn check_fits(&self) -> (r: bool) {
        text_fits_exec(&self.id) && text_fits_exec(&self.name) && text_fits_exec(&self.path)
    }

    open spec fn fits(&self) -> bool {
        text_fits(self.id@) && text_fits(self.name@) && text_fits(self.path@)
    }

    open spec fn record_bytes(&self) -> Seq<u8> {
        text_bytes(self.id@) + text_bytes(self.name@) + text_bytes(self.path@)
    }

    fn write(&self, out: &mut Vec<u8>) {
        write_text(out, &self.id);
        write_text(out, &self.name);
        write_text(out, &self.path);
        assert(out@ =~= old(out)@ + self.record_bytes());
    }
}

impl Record for Tag {
    fn check_fits(&self) -> (r: bool) {
        text_fits_exec(&self.id) && text_fits_exec(&self.name)
    }

    open spec fn fits(&self) -> bool {
        text_fits(self.id@) && text_fits(self.name@)
    }

    open spec fn record_bytes(&self) -> Seq<u8> {
        text_bytes(self.id@) + text_bytes(self.name@)
    }

    fn write(&self, out: &mut Vec<u8>) {
        write_text(out, &self.id);
        write_text(out, &self.name);
        assert(out@ =~= old(out)@ + self.record_bytes());
    }
}

impl Record for IndexEntry {
    fn check_fits(&self) -> (r: bool) {
        text_fits_exec(&self.hash) && text_fits_exec(&self.path)
    }

    open spec fn fits(&self) -> bool {
        text_fits(self.hash@) && text_fits(self.path@)
    }

    open spec fn record_bytes(&self) -> Seq<u8> {
        text_bytes(self.hash@) + text_bytes(self.path@) + u32_bytes(self.rating as u32)
    }

    fn write(&self, out: &mut Vec<u8>) {
        write_text(out, &self.hash);
        write_text(out, &self.path);
        write_u32(out, self.rating as u32);
        assert(out@ =~= old(out)@ + self.record_bytes());
    }
}

impl Record for MetadataEntry {
    fn check_fits(&self) -> (r: bool) {
        text_fits_exec(&self.file)
    }

    open spec fn fits(&self) -> bool {
        text_fits(self.file@)
    }

    open spec fn record_bytes(&self) -> Seq<u8> {
        text_bytes(self.file@) + u32_bytes(self.rating as u32)
    }

    fn write(&self, out: &mut Vec<u8>) {
        write_text(out, &self.file);
        write_u32(out, self.rating as u32);
        assert(out@ =~= old(out)@ + self.record_bytes());
    }
}

/// Records one after the other, without their count.
pub open spec fn records_bytes<T: Record>(xs: Seq<T>) -> Seq<u8>
    decreases xs.len(),
{
    if xs.len() == 0 {
        Seq::empty()
    } else {
        records_bytes(xs.drop_last()) + xs.last().record_bytes()
    }
}

pub open spec fn records_fit<T: Record>(xs: Seq<T>) -> bool {
    xs.len() <= u32::MAX && forall|i: int| 0 <= i < xs.len() ==> (#[trigger] xs[i]).fits()
}

/// A list of records on the wire: the count, then the records.
pub open spec fn record_list_bytes<T: Record>(xs: Seq<T>) -> Seq<u8> {
    u32_bytes(xs.len() as u32) + records_bytes(xs)
}

pub fn records_fit_exec<T: Record>(xs: &Vec<T>) -> (r: bool)
    ensures
        r == records_fit(xs@),
{
    if xs.len() as u64 > u32::MAX as u64 {
        return false;
    }
    let mut i: usize = 0;
    while i < xs.len()
        invariant
            i <= xs@.len() <= u32::MAX,
            forall|k: int| 0 <= k < i ==> (#[trigger] xs@[k]).fits(),
        decreases xs@.len() - i,
    {
        if !xs[i].check_fits() {
            return false;
        }
        i = i + 1;
    }
    true
}

pub fn write_records<T: Record>(out: &mut Vec<u8>, xs: &Vec<T>)
    requires
        records_fit(xs@),
    ensures
        final(out)@ == old(out)@ + record_list_bytes(xs@),
{
    write_u32(out, xs.len() as u32);
    let ghost start = out@;
    let mut i: usize = 0;
    while i < xs.len()
        invariant
            i <= xs@.len(),
            records_fit(xs@),
            out@ == start + records_bytes(xs@.take(i as int)),
        decreases xs@.len() - i,
    {
        assert(xs@[i as int].fits());
        xs[i].write(out);
        assert(xs@.take(i + 1).drop_last() =~= xs@.take(i as int));
        i = i + 1;
    }
    assert(xs@.take(xs@.len() as int) =~= xs@);
}

pub const TAG_LOCATION_LIST: u8 = 0;
pub const TAG_INDEX_LIST: u8 = 1;
pub const TAG_METADATA_LIST: u8 = 2;
pub const TAG_IMAGE: u8 = 3;
pub const TAG_SYSTEM_INFO: u8 = 4;
pub const TAG_ERROR: u8 = 5;

/// Raw bytes on the wire: their count, then the bytes.
pub open spec fn blob_bytes(b: Seq<u8>) -> Seq<u8> {
    u32_bytes(b.len() as u32) + b
}

pub open spec fn body_fits(b: ResponseBody) -> bool {
    match b {
        ResponseBody::LocationList { locations, tags } => records_fit(locations@) && records_fit(
            tags@,
        ),
        ResponseBody::IndexList { entries } => records_fit(entries@),
        ResponseBody::MetadataList { entries } => records_fit(entries@),
        ResponseBody::Image { pixels, .. } => pixels@.len() <= u32::MAX,
        ResponseBody::SystemInfo { info } => text_fits(info.version@) && text_fits(
            info.platform@,
        ),
        ResponseBody::Error { message } => text_fits(message@),
    }
}

/// Every text, list and raster of the response fits the frame format.
pub open spec fn response_fits(r: Response) -> bool {
    (r.nonce matches Some(n) ==> text_fits(n@)) && body_fits(r.body)
}

pub open spec fn response_body_bytes(b: ResponseBody) -> Seq<u8> {
    match b {
        ResponseBody::LocationList { locations, tags } => seq![TAG_LOCATION_LIST]
            + record_list_bytes(locations@) + record_list_bytes(tags@),
        ResponseBody::IndexList { entries } => seq![TAG_INDEX_LIST] + record_list_bytes(entries@),
        ResponseBody::MetadataList { entries } => seq![TAG_METADATA_LIST] + record_list_bytes(
            entries@,
        ),
        ResponseBody::Image { pixels, width, height } => seq![TAG_IMAGE] + u32_bytes(width)
            + u32_bytes(height) + blob_bytes(pixels@),
        ResponseBody::SystemInfo { info } => seq![TAG_SYSTEM_INFO] + text_bytes(info.version@)
            + text_bytes(info.platform@),
        ResponseBody::Error { message } => seq![TAG_ERROR] + text_bytes(message@),
    }
}

/// The frame of a response.
pub open spec fn response_bytes(r: Response) -> Seq<u8> {
    match r.nonce {
        None => seq![0u8] + response_body_bytes(r.body),
        Some(n) => seq![1u8] + text_bytes(n@) + response_body_bytes(r.body),
    }
}

/// Whether every text, list and raster of the response fits the frame format,
/// as `encode_response` asks.
pub fn response_fits_exec(r: &Response) -> (b: bool)
    ensures
        b == response_fits(*r),
{
    let nonce_fits = match &r.nonce {
        Some(n) => text_fits_exec(n),
        None => true,
    };
    let body_fits = match &r.body {
        ResponseBody::LocationList { locations, tags } => records_fit_exec(locations)
            && records_fit_exec(tags),
        ResponseBody::IndexList { entries } => records_fit_exec(entries),
        ResponseBody::MetadataList { entries } => records_fit_exec(entries),
        ResponseBody::Image { pixels, .. } => pixels.len() as u64 <= u32::MAX as u64,
        ResponseBody::SystemInfo { info } => text_fits_exec(&info.version) && text_fits_exec(
            &info.platform,
        ),
        ResponseBody::Error { message } => text_fits_exec(message),
    };
    nonce_fits && body_fits
}

/// The response's frame. Texts, lists and the raster must fit the frame format.
pub fn encode_response(r: &Response) -> (out: Vec<u8>)
    requires
        response_fits(*r),
    ensures
        out@ == response_bytes(*r),
{
    let mut out: Vec<u8> = Vec::new();
    match &r.nonce {
        None => {
            out.push(0u8);
        },
        Some(n) => {
            out.push(1u8);
            write_text(&mut out, n);
        },
    }
    let ghost head = out@;
    match &r.body {
        ResponseBody::LocationList { locations, tags } => {
            out.push(TAG_LOCATION_LIST);
            write_records(&mut out, locations);
            write_records(&mut out, tags);
        },
        ResponseBody::IndexList { entries } => {
            out.push(TAG_INDEX_LIST);
            write_records(&mut out, entries);
        },
        ResponseBody::MetadataList { entries } => {
            out.push(TAG_METADATA_LIST);
            write_records(&mut out, entries);
        },
        ResponseBody::Image { pixels, width, height } => {
            out.push(TAG_IMAGE);
            write_u32(&mut out, *width);
            write_u32(&mut out, *height);
            write_u32(&mut out, pixels.len() as u32);
            let ghost start = out@;
            let mut i: usize = 0;
            while i < pixels.len()
                invariant
                    i <= pixels@.len(),
                    out@ == start + pixels@.take(i as int),
                decreases pixels@.len() - i,
            {
                out.push(pixels[i]);
                i = i + 1;
                assert(out@ =~= start + pixels@.take(i as int));
            }
            assert(pixels@.take(pixels@.len() as int) =~= pixels@);
        },
        ResponseBody::SystemInfo { info } => {
            out.push(TAG_SYSTEM_INFO);
            write_text(&mut out, &info.version);
            write_text(&mut out, &info.platform);
        },
        ResponseBody::Error { message } => {
            out.push(TAG_ERROR);
            write_text(&mut out, message);
        },
    }
    assert(out@ =~= head + response_body_bytes(r.body));
    assert(out@ =~= response_bytes(*r));
    out
}

} // verus!
