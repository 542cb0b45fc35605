//! The commands that are built in, each under its stable identifier.

use crate::text::str_eq;
use vstd::prelude::*;

verus! {

/// A built-in command.
#[derive(Clone, Copy, Debug, PartialEq, Eq, Structural)]
pub enum CommandName {
    /// `path.exists`
    PathExists,
    /// `path.join`
    PathJoin,
    /// `path.split`
    PathSplit,
    /// `path.read`
    PathRead,
    /// `path.relative.with_home_dir`
    PathRelativeWithHomeDir,
    /// `path.absolute.with_home_dir`
    PathAbsoluteWithHomeDir,
    /// `path.new_temp_file_path`
    PathNewTempFilePath,
    /// `path.locate`
    PathLocate,
    /// `path.locate.app_data_dir`
    PathLocateAppDataDir,
    /// `path.parse_for_task`
    PathParseForTask,
    /// `path.make_unused_path`
    PathMakeUnusedPath,
    /// `path.delete`
    PathDelete,
    /// `path.rename`
    PathRename,
    /// `dir.list`
    DirList,
    /// `file.get_name`
    FileGetName,
    /// `file.get_extension`
    FileGetExtension,
    /// `file.info.basic`
    FileInfoBasic,
    /// `file.info.metadata`
    FileInfoMetadata,
    /// `file.exif.get`
    FileExifGet,
    /// `file.count_files`
    FileCountFiles,
    /// `file.rename`
    FileRename,
    /// `file.read`
    FileRead,
    /// `file.write`
    FileWrite,
    /// `file.copy`
    FileCopy,
    /// `files.clear`
    FilesClear,
    /// `file.svg_to_png`
    FileSvgToPng,
    /// `file.image_to_svg`
    FileImageToSvg,
    /// `file.image.remove_background`
    FileImageRemoveBackground,
    /// `file.image.png_optimize`
    FileImagePngOptimize,
    /// `file.binary.split`
    FileBinarySplit,
    /// `file.binary.join`
    FileBinaryJoin,
    /// `file.hash`
    FileHash,
    /// `image.svg_to_png`
    ImageSvgToPng,
    /// `i18n.load.languages`
    I18nLoadLanguages,
    /// `i18n.load.translation`
    I18nLoadTranslation,
    /// `tool_data.get_all_tools`
    ToolDataGetAllTools,
    /// `tool_data.get_bin_path`
    ToolDataGetBinPath,
    /// `http.download_file`
    HttpDownloadFile,
    /// `zip.unzip_file`
    ZipUnzipFile,
    /// `url.open`
    UrlOpen,
    /// `text.replace`
    TextReplace,
    /// `text.replace_words`
    TextReplaceWords,
    /// `text.regex.extract`
    TextRegexExtract,
    /// `text.regex.find_all`
    TextRegexFindAll,
    /// `text.regex.match`
    TextRegexMatch,
    /// `text.split`
    TextSplit,
    /// `text.datetime.split`
    TextDatetimeSplit,
    /// `env.platform`
    EnvPlatform,
    /// `env.arch`
    EnvArch,
    /// `env.is_debug`
    EnvIsDebug,
    /// `env.app_data_dir`
    EnvAppDataDir,
    /// `env.home_dir`
    EnvHomeDir,
    /// `array.get`
    ArrayGet,
    /// `semver.compare`
    SemverCompare,
    /// `font.list_system_fonts`
    FontListSystemFonts,
    /// `template.list_templates`
    TemplateListTemplates,
    /// `template.get_template_content`
    TemplateGetTemplateContent,
    /// `updater.update_functions`
    UpdaterUpdateWorkflows,
    /// `updater.update_i18n`
    UpdaterUpdateI18n,
    /// `updater.download_app_windows_installer`
    UpdaterDownloadAppWindowsInstaller,
}

impl CommandName {
    /// The identifier of the command.
    pub open spec fn text(self) -> Seq<char> {
        match self {
            CommandName::PathExists => "path.exists"@,
            CommandName::PathJoin => "path.join"@,
            CommandName::PathSplit => "path.split"@,
            CommandName::PathRead => "path.read"@,
            CommandName::PathRelativeWithHomeDir => "path.relative.with_home_dir"@,
            CommandName::PathAbsoluteWithHomeDir => "path.absolute.with_home_dir"@,
            CommandName::PathNewTempFilePath => "path.new_temp_file_path"@,
            CommandName::PathLocate => "path.locate"@,
            CommandName::PathLocateAppDataDir => "path.locate.app_data_dir"@,
            CommandName::PathParseForTask => "path.parse_for_task"@,
            CommandName::PathMakeUnusedPath => "path.make_unused_path"@,
            CommandName::PathDelete => "path.delete"@,
            CommandName::PathRename => "path.rename"@,
            CommandName::DirList => "dir.list"@,
            CommandName::FileGetName => "file.get_name"@,
            CommandName::FileGetExtension => "file.get_extension"@,
            CommandName::FileInfoBasic => "file.info.basic"@,
            CommandName::FileInfoMetadata => "file.info.metadata"@,
            CommandName::FileExifGet => "file.exif.get"@,
            CommandName::FileCountFiles => "file.count_files"@,
            CommandName::FileRename => "file.rename"@,
            CommandName::FileRead => "file.read"@,
            CommandName::FileWrite => "file.write"@,
            CommandName::FileCopy => "file.copy"@,
            CommandName::FilesClear => "files.clear"@,
            CommandName::FileSvgToPng => "file.svg_to_png"@,
            CommandName::FileImageToSvg => "file.image_to_svg"@,
            CommandName::FileImageRemoveBackground => "file.image.remove_background"@,
            CommandName::FileImagePngOptimize => "file.image.png_optimize"@,
            CommandName::FileBinarySplit => "file.binary.split"@,
            CommandName::FileBinaryJoin => "file.binary.join"@,
            CommandName::FileHash => "file.hash"@,
            CommandName::ImageSvgToPng => "image.svg_to_png"@,
            CommandName::I18nLoadLanguages => "i18n.load.languages"@,
            CommandName::I18nLoadTranslation => "i18n.load.translation"@,
            CommandName::ToolDataGetAllTools => "tool_data.get_all_tools"@,
            CommandName::ToolDataGetBinPath => "tool_data.get_bin_path"@,
            CommandName::HttpDownloadFile => "http.download_file"@,
            CommandName::ZipUnzipFile => "zip.unzip_file"@,
            CommandName::UrlOpen => "url.open"@,
            CommandName::TextReplace => "text.replace"@,
            CommandName::TextReplaceWords => "text.replace_words"@,
            CommandName::TextRegexExtract => "text.regex.extract"@,
            CommandName::TextRegexFindAll => "text.regex.find_all"@,
            CommandName::TextRegexMatch => "text.regex.match"@,
            CommandName::TextSplit => "text.split"@,
            CommandName::TextDatetimeSplit => "text.datetime.split"@,
            CommandName::EnvPlatform => "env.platform"@,
            CommandName::EnvArch => "env.arch"@,
            CommandName::EnvIsDebug => "env.is_debug"@,
            CommandName::EnvAppDataDir => "env.app_data_dir"@,
            CommandName::EnvHomeDir => "env.home_dir"@,
            CommandName::ArrayGet => "array.get"@,
            CommandName::SemverCompare => "semver.compare"@,
            CommandName::FontListSystemFonts => "font.list_system_fonts"@,
            CommandName::TemplateListTemplates => "template.list_templates"@,
            CommandName::TemplateGetTemplateContent => "template.get_template_content"@,
            CommandName::UpdaterUpdateWorkflows => "updater.update_functions"@,
            CommandName::UpdaterUpdateI18n => "updater.update_i18n"@,
            CommandName::UpdaterDownloadAppWindowsInstaller => "updater.download_app_windows_installer"@,
        }
    }

    pub fn as_str(&self) -> (r: &'static str)
        ensures
            r@ == self.text(),
    {
        match self {
            CommandName::PathExists => "path.exists",
            CommandName::PathJoin => "path.join",
            CommandName::PathSplit => "path.split",
            CommandName::PathRead => "path.read",
            CommandName::PathRelativeWithHomeDir => "path.relative.with_home_dir",
            CommandName::PathAbsoluteWithHomeDir => "path.absolute.with_home_dir",
            CommandName::PathNewTempFilePath => "path.new_temp_file_path",
            CommandName::PathLocate => "path.locate",
            CommandName::PathLocateAppDataDir => "path.locate.app_data_dir",
            CommandName::PathParseForTask => "path.parse_for_task",
            CommandName::PathMakeUnusedPath => "path.make_unused_path",
            CommandName::PathDelete => "path.delete",
            CommandName::PathRename => "path.rename",
            CommandName::DirList => "dir.list",
            CommandName::FileGetName => "file.get_name",
            CommandName::FileGetExtension => "file.get_extension",
            CommandName::FileInfoBasic => "file.info.basic",
            CommandName::FileInfoMetadata => "file.info.metadata",
            CommandName::FileExifGet => "file.exif.get",
            CommandName::FileCountFiles => "file.count_files",
            CommandName::FileRename => "file.rename",
            CommandName::FileRead => "file.read",
            CommandName::FileWrite => "file.write",
            CommandName::FileCopy => "file.copy",
            CommandName::FilesClear => "files.clear",
            CommandName::FileSvgToPng => "file.svg_to_png",
            CommandName::FileImageToSvg => "file.image_to_svg",
            CommandName::FileImageRemoveBackground => "file.image.remove_background",
            CommandName::FileImagePngOptimize => "file.image.png_optimize",
            CommandName::FileBinarySplit => "file.binary.split",
            CommandName::FileBinaryJoin => "file.binary.join",
            CommandName::FileHash => "file.hash",
            CommandName::ImageSvgToPng => "image.svg_to_png",
            CommandName::I18nLoadLanguages => "i18n.load.languages",
            CommandName::I18nLoadTranslation => "i18n.load.translation",
            CommandName::ToolDataGetAllTools => "tool_data.get_all_tools",
            CommandName::ToolDataGetBinPath => "tool_data.get_bin_path",
            CommandName::HttpDownloadFile => "http.download_file",
            CommandName::ZipUnzipFile => "zip.unzip_file",
            CommandName::UrlOpen => "url.open",
            CommandName::TextReplace => "text.replace",
            CommandName::TextReplaceWords => "text.replace_words",
            CommandName::TextRegexExtract => "text.regex.extract",
            CommandName::TextRegexFindAll => "text.regex.find_all",
            CommandName::TextRegexMatch => "text.regex.match",
            CommandName::TextSplit => "text.split",
            CommandName::TextDatetimeSplit => "text.datetime.split",
            CommandName::EnvPlatform => "env.platform",
            CommandName::EnvArch => "env.arch",
            CommandName::EnvIsDebug => "env.is_debug",
            CommandName::EnvAppDataDir => "env.app_data_dir",
            CommandName::EnvHomeDir => "env.home_dir",
            CommandName::ArrayGet => "array.get",
            CommandName::SemverCompare => "semver.compare",
            CommandName::FontListSystemFonts => "font.list_system_fonts",
            CommandName::TemplateListTemplates => "template.list_templates",
            CommandName::TemplateGetTemplateContent => "template.get_template_content",
            CommandName::UpdaterUpdateWorkflows => "updater.update_functions",
            CommandName::UpdaterUpdateI18n => "updater.update_i18n",
            CommandName::UpdaterDownloadAppWindowsInstaller => "updater.download_app_windows_installer",
        }
    }
}

/// The command that an identifier names: the identifier has to match exactly.
pub open spec fn command_of(name: Seq<char>) -> Option<CommandName> {
    if name == "path.exists"@ {
        Some(CommandName::PathExists)
    } else if name == "path.join"@ {
        Some(CommandName::PathJoin)
    } else if name == "path.split"@ {
        Some(CommandName::PathSplit)
    } else if name == "path.read"@ {
        Some(CommandName::PathRead)
    } else if name == "path.relative.with_home_dir"@ {
        Some(CommandName::PathRelativeWithHomeDir)
    } else if name == "path.absolute.with_home_dir"@ {
        Some(CommandName::PathAbsoluteWithHomeDir)
    } else if name == "path.new_temp_file_path"@ {
        Some(CommandName::PathNewTempFilePath)
    } else if name == "path.locate"@ {
        Some(CommandName::PathLocate)
    } else if name == "path.locate.app_data_dir"@ {
        Some(CommandName::PathLocateAppDataDir)
    } else if name == "path.parse_for_task"@ {
        Some(CommandName::PathParseForTask)
    } else if name == "path.make_unused_path"@ {
        Some(CommandName::PathMakeUnusedPath)
    } else if name == "path.delete"@ {
        Some(CommandName::PathDelete)
    } else if name == "path.rename"@ {
        Some(CommandName::PathRename)
    } else if name == "dir.list"@ {
        Some(CommandName::DirList)
    } else if name == "file.get_name"@ {
        Some(CommandName::FileGetName)
    } else if name == "file.get_extension"@ {
        Some(CommandName::FileGetExtension)
    } else if name == "file.info.basic"@ {
        Some(CommandName::FileInfoBasic)
    } else if name == "file.info.metadata"@ {
        Some(CommandName::FileInfoMetadata)
    } else if name == "file.exif.get"@ {
        Some(CommandName::FileExifGet)
    } else if name == "file.count_files"@ {
        Some(CommandName::FileCountFiles)
    } else if name == "file.rename"@ {
        Some(CommandName::FileRename)
    } else if name == "file.read"@ {
        Some(CommandName::FileRead)
    } else if name == "file.write"@ {
        Some(CommandName::FileWrite)
    } else if name == "file.copy"@ {
        Some(CommandName::FileCopy)
    } else if name == "files.clear"@ {
        Some(CommandName::FilesClear)
    } else if name == "file.svg_to_png"@ {
        Some(CommandName::FileSvgToPng)
    } else if name == "file.image_to_svg"@ {
        Some(CommandName::FileImageToSvg)
    } else if name == "file.image.remove_background"@ {
        Some(CommandName::FileImageRemoveBackground)
    } else if name == "file.image.png_optimize"@ {
        Some(CommandName::FileImagePngOptimize)
    } else if name == "file.binary.split"@ {
        Some(CommandName::FileBinarySplit)
    } else if name == "file.binary.join"@ {
        Some(CommandName::FileBinaryJoin)
    } else if name == "file.hash"@ {
        Some(CommandName::FileHash)
    } else if name == "image.svg_to_png"@ {
        Some(CommandName::ImageSvgToPng)
    } else if name == "i18n.load.languages"@ {
        Some(CommandName::I18nLoadLanguages)
    } else if name == "i18n.load.translation"@ {
        Some(CommandName::I18nLoadTranslation)
    } else if name == "tool_data.get_all_tools"@ {
        Some(CommandName::ToolDataGetAllTools)
    } else if name == "tool_data.get_bin_path"@ {
        Some(CommandName::ToolDataGetBinPath)
    } else if name == "http.download_file"@ {
        Some(CommandName::HttpDownloadFile)
    } else if name == "zip.unzip_file"@ {
        Some(CommandName::ZipUnzipFile)
    } else if name == "url.open"@ {
        Some(CommandName::UrlOpen)
    } else if name == "text.replace"@ {
        Some(CommandName::TextReplace)
    } else if name == "text.replace_words"@ {
        Some(CommandName::TextReplaceWords)
    } else if name == "text.regex.extract"@ {
        Some(CommandName::TextRegexExtract)
    } else if name == "text.regex.find_all"@ {
        Some(CommandName::TextRegexFindAll)
    } else if name == "text.regex.match"@ {
        Some(CommandName::TextRegexMatch)
    } else if name == "text.split"@ {
        Some(CommandName::TextSplit)
    } else if name == "text.datetime.split"@ {
        Some(CommandName::TextDatetimeSplit)
    } else if name == "env.platform"@ {
        Some(CommandName::EnvPlatform)
    } else if name == "env.arch"@ {
        Some(CommandName::EnvArch)
    } else if name == "env.is_debug"@ {
        Some(CommandName::EnvIsDebug)
    } else if name == "env.app_data_dir"@ {
        Some(CommandName::EnvAppDataDir)
    } else if name == "env.home_dir"@ {
        Some(CommandName::EnvHomeDir)
    } else if name == "array.get"@ {
        Some(CommandName::ArrayGet)
    } else if name == "semver.compare"@ {
        Some(CommandName::SemverCompare)
    } else if name == "font.list_system_fonts"@ {
        Some(CommandName::FontListSystemFonts)
    } else if name == "template.list_templates"@ {
        Some(CommandName::TemplateListTemplates)
    } else if name == "template.get_template_content"@ {
        Some(CommandName::TemplateGetTemplateContent)
    } else if name == "updater.update_functions"@ {
        Some(CommandName::UpdaterUpdateWorkflows)
    } else if name == "updater.update_i18n"@ {
        Some(CommandName::UpdaterUpdateI18n)
    } else if name == "updater.download_app_windows_installer"@ {
        Some(CommandName::UpdaterDownloadAppWindowsInstaller)
    } else {
        None
    }
}

pub fn parse_command(name: &str) -> (r: Option<CommandName>)
    ensures
        r == command_of(name@),
{
    if str_eq(name, "path.exists") {
        Some(CommandName::PathExists)
    } else if str_eq(name, "path.join") {
        Some(CommandName::PathJoin)
    } else if str_eq(name, "path.split") {
        Some(CommandName::PathSplit)
    } else if str_eq(name, "path.read") {
        Some(CommandName::PathRead)
    } else if str_eq(name, "path.relative.with_home_dir") {
        Some(CommandName::PathRelativeWithHomeDir)
    } else if str_eq(name, "path.absolute.with_home_dir") {
        Some(CommandName::PathAbsoluteWithHomeDir)
    } else if str_eq(name, "path.new_temp_file_path") {
        Some(CommandName::PathNewTempFilePath)
    } else if str_eq(name, "path.locate") {
        Some(CommandName::PathLocate)
    } else if str_eq(name, "path.locate.app_data_dir") {
        Some(CommandName::PathLocateAppDataDir)
    } else if str_eq(name, "path.parse_for_task") {
        Some(CommandName::PathParseForTask)
    } else if str_eq(name, "path.make_unused_path") {
        Some(CommandName::PathMakeUnusedPath)
    } else if str_eq(name, "path.delete") {
        Some(CommandName::PathDelete)
    } else if str_eq(name, "path.rename") {
        Some(CommandName::PathRename)
    } else if str_eq(name, "dir.list") {
        Some(CommandName::DirList)
    } else if str_eq(name, "file.get_name") {
        Some(CommandName::FileGetName)
    } else if str_eq(name, "file.get_extension") {
        Some(CommandName::FileGetExtension)
    } else if str_eq(name, "file.info.basic") {
        Some(CommandName::FileInfoBasic)
    } else if str_eq(name, "file.info.metadata") {
        Some(CommandName::FileInfoMetadata)
    } else if str_eq(name, "file.exif.get") {
        Some(CommandName::FileExifGet)
    } else if str_eq(name, "file.count_files") {
        Some(CommandName::FileCountFiles)
    } else if str_eq(name, "file.rename") {
        Some(CommandName::FileRename)
    } else if str_eq(name, "file.read") {
        Some(CommandName::FileRead)
    } else if str_eq(name, "file.write") {
        Some(CommandName::FileWrite)
    } else if str_eq(name, "file.copy") {
        Some(CommandName::FileCopy)
    } else if str_eq(name, "files.clear") {
        Some(CommandName::FilesClear)
    } else if str_eq(name, "file.svg_to_png") {
        Some(CommandName::FileSvgToPng)
    } else if str_eq(name, "file.image_to_svg") {
        Some(CommandName::FileImageToSvg)
    } else if str_eq(name, "file.image.remove_background") {
        Some(CommandName::FileImageRemoveBackground)
    } else if str_eq(name, "file.image.png_optimize") {
        Some(CommandName::FileImagePngOptimize)
    } else if str_eq(name, "file.binary.split") {
        Some(CommandName::FileBinarySplit)
    } else if str_eq(name, "file.binary.join") {
        Some(CommandName::FileBinaryJoin)
    } else if str_eq(name, "file.hash") {
        Some(CommandName::FileHash)
    } else if str_eq(name, "image.svg_to_png") {
        Some(CommandName::ImageSvgToPng)
    } else if str_eq(name, "i18n.load.languages") {
        Some(CommandName::I18nLoadLanguages)
    } else if str_eq(name, "i18n.load.translation") {
        Some(CommandName::I18nLoadTranslation)
    } else if str_eq(name, "tool_data.get_all_tools") {
        Some(CommandName::ToolDataGetAllTools)
    } else if str_eq(name, "tool_data.get_bin_path") {
        Some(CommandName::ToolDataGetBinPath)
    } else if str_eq(name, "http.download_file") {
        Some(CommandName::HttpDownloadFile)
    } else if str_eq(name, "zip.unzip_file") {
        Some(CommandName::ZipUnzipFile)
    } else if str_eq(name, "url.open") {
        Some(CommandName::UrlOpen)
    } else if str_eq(name, "text.replace") {
        Some(CommandName::TextReplace)
    } else if str_eq(name, "text.replace_words") {
        Some(CommandName::TextReplaceWords)
    } else if str_eq(name, "text.regex.extract") {
        Some(CommandName::TextRegexExtract)
    } else if str_eq(name, "text.regex.find_all") {
        Some(CommandName::TextRegexFindAll)
    } else if str_eq(name, "text.regex.match") {
        Some(CommandName::TextRegexMatch)
    } else if str_eq(name, "text.split") {
        Some(CommandName::TextSplit)
    } else if str_eq(name, "text.datetime.split") {
        Some(CommandName::TextDatetimeSplit)
    } else if str_eq(name, "env.platform") {
        Some(CommandName::EnvPlatform)
    } else if str_eq(name, "env.arch") {
        Some(CommandName::EnvArch)
    } else if str_eq(name, "env.is_debug") {
        Some(CommandName::EnvIsDebug)
    } else if str_eq(name, "env.app_data_dir") {
        Some(CommandName::EnvAppDataDir)
    } else if str_eq(name, "env.home_dir") {
        Some(CommandName::EnvHomeDir)
    } else if str_eq(name, "array.get") {
        Some(CommandName::ArrayGet)
    } else if str_eq(name, "semver.compare") {
        Some(CommandName::SemverCompare)
    } else if str_eq(name, "font.list_system_fonts") {
        Some(CommandName::FontListSystemFonts)
    } else if str_eq(name, "template.list_templates") {
        Some(CommandName::TemplateListTemplates)
    } else if str_eq(name, "template.get_template_content") {
        Some(CommandName::TemplateGetTemplateContent)
    } else if str_eq(name, "updater.update_functions") {
        Some(CommandName::UpdaterUpdateWorkflows)
    } else if str_eq(name, "updater.update_i18n") {
        Some(CommandName::UpdaterUpdateI18n)
    } else if str_eq(name, "updater.download_app_windows_installer") {
        Some(CommandName::UpdaterDownloadAppWindowsInstaller)
    } else {
        None
    }
}

/// Every command is found again under its own identifier.
pub proof fn law_identifier_names_its_command(c: CommandName)
    ensures
        command_of(c.text()) is Some,
        command_of(c.text())->Some_0.text() == c.text(),
{
}

} // verus!
