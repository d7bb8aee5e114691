//! What is known of the opened file and folder, and what is written when
//! the annotations are exported.

use crate::result::RvError;
use crate::tools_data::bbox_data::{exports_as, BboxExportData, BboxSpecificData};
use crate::tools_data::export_path::{export_file_stem, spec_export_file_stem};
use vstd::prelude::*;

verus! {

/// How a remote folder is reached.
#[derive(Clone, Debug, PartialEq, Eq)]
pub struct SshCfg {
    pub user: String,
    pub ssh_identity_file_path: String,
    pub remote_folder_paths: Vec<String>,
    pub address: String,
}

/// Where the opened folder lies.
#[derive(Clone, Debug, PartialEq, Eq)]
pub enum ConnectionData {
    /// On a remote machine.
    Ssh(SshCfg),
    /// On this machine.
    Local,
}

impl Default for ConnectionData {
    fn default() -> (c: Self)
        ensures
            c == ConnectionData::Local,
    {
        ConnectionData::Local
    }
}

/// The opened file, the folder it lies in, and the folder for exports.
#[derive(Clone, Debug, PartialEq, Eq)]
pub struct MetaData {
    pub file_path: Option<String>,
    pub connection_data: ConnectionData,
    pub opened_folder: Option<String>,
    pub export_folder: Option<String>,
}

impl MetaData {
    /// The data of a local file of which no more than its path is known.
    pub fn from_filepath(file_path: String) -> (m: Self)
        ensures
            m.file_path == Some(file_path),
            m.connection_data == ConnectionData::Local,
            m.opened_folder is None,
            m.export_folder is None,
    {
        MetaData {
            file_path: Some(file_path),
            connection_data: ConnectionData::Local,
            opened_folder: None,
            export_folder: None,
        }
    }
}

impl Default for MetaData {
    fn default() -> (m: Self)
        ensures
            m.file_path is None,
            m.connection_data == ConnectionData::Local,
            m.opened_folder is None,
            m.export_folder is None,
    {
        MetaData {
            file_path: None,
            connection_data: ConnectionData::Local,
            opened_folder: None,
            export_folder: None,
        }
    }
}

/// What an export writes to a file.
#[derive(Clone, Debug, PartialEq, Eq)]
pub struct ExportData {
    pub opened_folder: String,
    pub connection_data: ConnectionData,
    pub bbox_data: Option<BboxExportData>,
}

/// An export that is ready to be written: the folder to write to, the name
/// of the file without its extension, and the data.
pub struct ExportJob {
    pub export_folder: String,
    pub file_stem: String,
    pub data: ExportData,
}

/// Prepares the export of the annotations. It is refused if no folder for
/// exports is known, else if no folder is opened. Else the file is named
/// after the opened folder and holds its path, where it lies, and what the
/// tool exports.
pub fn prepare_export(meta_data: &MetaData, bbox_specifics: BboxSpecificData) -> (r: Result<
    ExportJob,
    RvError,
>)
    requires
        bbox_specifics.wf(),
    ensures
        meta_data.export_folder is None ==> r == Err::<ExportJob, RvError>(RvError::NoExportFolder),
        meta_data.export_folder is Some && meta_data.opened_folder is None ==> r == Err::<
            ExportJob,
            RvError,
        >(RvError::NoFolderOpened),
        meta_data.export_folder is Some && meta_data.opened_folder is Some ==> r is Ok && {
            let job = r.unwrap();
            &&& job.export_folder@ == meta_data.export_folder.unwrap()@
            &&& job.file_stem@ == spec_export_file_stem(meta_data.opened_folder.unwrap()@)
            &&& job.data.opened_folder@ == meta_data.opened_folder.unwrap()@
            &&& job.data.bbox_data is Some
            &&& exports_as(bbox_specifics, job.data.bbox_data.unwrap())
        },
{
    let ef = match &meta_data.export_folder {
        Some(ef) => ef,
        None => {
            return Err(RvError::NoExportFolder);
        },
    };
    let of = match &meta_data.opened_folder {
        Some(of) => of,
        None => {
            return Err(RvError::NoFolderOpened);
        },
    };
    let data = ExportData {
        opened_folder: of.clone(),
        connection_data: meta_data.connection_data.clone(),
        bbox_data: Some(BboxExportData::from_bbox_data(bbox_specifics)),
    };
    Ok(ExportJob { export_folder: ef.clone(), file_stem: export_file_stem(of.as_str()), data })
}

/// Takes the annotations out of what was read from an export. The import
/// is refused if the export holds none, else as
/// `BboxSpecificData::from_bbox_export_data` says.
pub fn convert_read(read: ExportData) -> (r: Result<BboxSpecificData, RvError>)
    ensures
        read.bbox_data is None ==> r == Err::<BboxSpecificData, RvError>(RvError::NoBboxData),
        read.bbox_data matches Some(bb_read) ==> match crate::tools_data::bbox_data::import_error(
            bb_read,
        ) {
            Some(e) => r == Err::<BboxSpecificData, RvError>(e),
            None => r matches Ok(d) && d.wf() && d.cats_in_table() && exports_as(d, bb_read),
        },
{
    match read.bbox_data {
        Some(bb_read) => BboxSpecificData::from_bbox_export_data(bb_read),
        None => Err(RvError::NoBboxData),
    }
}

} // verus!
