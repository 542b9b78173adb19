//! The single error type of the application, with its stable code and its
//! user-facing message.

use vstd::prelude::*;
use crate::text::{decimal, signed_decimal, push_decimal, push_signed_decimal};

verus! {

/// Errors of the application. `Io` holds the text of the I/O error.
#[derive(Clone, Debug)]
pub enum AppError {
    Probe(String),
    Process { tool: String, code: i32, stderr: String },
    Io(String),
    DiskSpace { needed: u64, free: u64 },
    Gpu(String),
    SidecarMissing(String),
    JobAlreadyRunning,
    JobNotFound(String),
    Cancelled,
    Config(String),
    Other(String),
}

/// Stable machine-readable code of each error kind.
pub open spec fn error_code(e: AppError) -> Seq<char> {
    match e {
        AppError::Probe(_) => "probe"@,
        AppError::Process { .. } => "process"@,
        AppError::Io(_) => "io"@,
        AppError::DiskSpace { .. } => "disk_space"@,
        AppError::Gpu(_) => "gpu"@,
        AppError::SidecarMissing(_) => "sidecar_missing"@,
        AppError::JobAlreadyRunning => "job_already_running"@,
        AppError::JobNotFound(_) => "job_not_found"@,
        AppError::Cancelled => "cancelled"@,
        AppError::Config(_) => "config"@,
        AppError::Other(_) => "other"@,
    }
}

/// User-facing message of each error.
pub open spec fn error_message(e: AppError) -> Seq<char> {
    match e {
        AppError::Probe(s) => "ffprobe: "@ + s@,
        AppError::Process { tool, code, stderr } => tool@ + " завершился с кодом "@
            + signed_decimal(code as int) + ": "@ + stderr@,
        AppError::Io(s) => "ввод-вывод: "@ + s@,
        AppError::DiskSpace { needed, free } => "недостаточно места на диске: нужно ~"@ + decimal(
            needed as nat,
        ) + " байт, свободно "@ + decimal(free as nat),
        AppError::Gpu(s) => "Vulkan/GPU недоступен: "@ + s@,
        AppError::SidecarMissing(s) => "компонент не найден: "@ + s@,
        AppError::JobAlreadyRunning => "джоба уже выполняется"@,
        AppError::JobNotFound(s) => "джоба не найдена: "@ + s@,
        AppError::Cancelled => "джоба отменена"@,
        AppError::Config(s) => "неверная конфигурация: "@ + s@,
        AppError::Other(s) => s@,
    }
}

impl AppError {
    /// Stable code of the error, sent to the front end together with the message.
    pub fn code(&self) -> (c: &'static str)
        ensures
            c@ == error_code(*self),
    {
        match self {
            AppError::Probe(_) => "probe",
            AppError::Process { .. } => "process",
            AppError::Io(_) => "io",
            AppError::DiskSpace { .. } => "disk_space",
            AppError::Gpu(_) => "gpu",
            AppError::SidecarMissing(_) => "sidecar_missing",
            AppError::JobAlreadyRunning => "job_already_running",
            AppError::JobNotFound(_) => "job_not_found",
            AppError::Cancelled => "cancelled",
            AppError::Config(_) => "config",
            AppError::Other(_) => "other",
        }
    }

    /// The user-facing message of the error.
    pub fn message(&self) -> (m: String)
        ensures
            m@ == error_message(*self),
    {
        let mut m = String::new();
        match self {
            AppError::Probe(s) => {
                m.append("ffprobe: ");
                m.append(s.as_str());
            },
            AppError::Process { tool, code, stderr } => {
                m.append(tool.as_str());
                m.append(" завершился с кодом ");
                push_signed_decimal(&mut m, *code as i64);
                m.append(": ");
                m.append(stderr.as_str());
            },
            AppError::Io(s) => {
                m.append("ввод-вывод: ");
                m.append(s.as_str());
            },
            AppError::DiskSpace { needed, free } => {
                m.append("недостаточно места на диске: нужно ~");
                push_decimal(&mut m, *needed as u128);
                m.append(" байт, свободно ");
                push_decimal(&mut m, *free as u128);
            },
            AppError::Gpu(s) => {
                m.append("Vulkan/GPU недоступен: ");
                m.append(s.as_str());
            },
            AppError::SidecarMissing(s) => {
                m.append("компонент не найден: ");
                m.append(s.as_str());
            },
            AppError::JobAlreadyRunning => {
                m.append("джоба уже выполняется");
            },
            AppError::JobNotFound(s) => {
                m.append("джоба не найдена: ");
                m.append(s.as_str());
            },
            AppError::Cancelled => {
                m.append("джоба отменена");
            },
            AppError::Config(s) => {
                m.append("неверная конфигурация: ");
                m.append(s.as_str());
            },
            AppError::Other(s) => {
                m.append(s.as_str());
            },
        }
        proof {
            assert(m@ =~= error_message(*self));
        }
        m
    }
}

} // verus!
