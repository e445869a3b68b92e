use vstd::prelude::*;

verus! {

/// The step of the CUDA driver probe that failed.
#[derive(Debug, Clone, Copy, PartialEq, Eq)]
pub enum ProbeError {
    /// `cuInit` failed: no driver, or one too old.
    InitFailed,
    /// `cuDeviceGetCount` failed.
    DeviceCountFailed,
    /// The driver reports no CUDA device.
    NoDevices,
    /// `cuDeviceGet` failed for device 0.
    DeviceGetFailed,
    /// `cuDeviceGetName` failed for device 0.
    NameFailed,
}

/// What the CUDA driver probe concludes from the driver's answers.
#[derive(Debug, Clone, Copy)]
pub struct DriverReport {
    /// Whether a usable CUDA device was found.
    pub available: bool,
    /// Driver version as (major, minor), once the driver initialised.
    pub driver_version: Option<(i32, i32)>,
    /// Compute capability of device 0 as (major, minor).
    pub compute_capability: Option<(i32, i32)>,
    /// Memory of device 0 in MiB.
    pub vram_mb: Option<u64>,
    /// Number of CUDA devices, on a complete probe.
    pub device_count: Option<i32>,
    /// The failed step, if any.
    pub error: Option<ProbeError>,
    /// The driver is older than what OptiX 9 needs (version below 12000).
    pub driver_too_old: bool,
    /// The device's compute capability is below 7.5 (Turing).
    pub cc_below_turing: bool,
}

/// The driver version number split as the driver API encodes it: `1000 * major + 10 * minor`
/// (integer division and remainder rounding toward zero, as on `i32`).
pub open spec fn driver_version_parts(version: i32) -> (i32, i32) {
    (
        div_toward_zero(version as int, 1000) as i32,
        div_toward_zero(rem_toward_zero(version as int, 1000), 10) as i32,
    )
}

/// Integer division rounding toward zero (`i32` division).
pub open spec fn div_toward_zero(x: int, d: int) -> int {
    if x >= 0 {
        x / d
    } else {
        -((-x) / d)
    }
}

/// The remainder that goes with `div_toward_zero` (`i32` remainder).
pub open spec fn rem_toward_zero(x: int, d: int) -> int {
    x - d * div_toward_zero(x, d)
}

/// Compute capability `major.minor` as the number `10 * major + minor`.
pub open spec fn capability_number(major: i32, minor: i32) -> int {
    major * 10 + minor
}

/// Whether the probe reaches its last step (every earlier driver call succeeded).
pub open spec fn probe_completes(
    init_status: i32,
    device_count: Option<i32>,
    device_ok: bool,
    name_ok: bool,
) -> bool {
    &&& init_status == 0
    &&& device_count matches Some(n) && n != 0
    &&& device_ok
    &&& name_ok
}

/// The report of a probe that stopped at step `error`.
pub open spec fn failed_report(
    error: ProbeError,
    available: bool,
    driver_version: Option<(i32, i32)>,
) -> DriverReport {
    DriverReport {
        available,
        driver_version,
        compute_capability: None,
        vram_mb: None,
        device_count: None,
        error: Some(error),
        driver_too_old: false,
        cc_below_turing: false,
    }
}

/// Bytes as whole MiB.
pub open spec fn mebibytes(bytes: u64) -> u64 {
    (bytes / 1048576) as u64
}

/// Decides the CUDA driver report from the answers of the driver calls, in the order they
/// are made: `cuInit` status, the driver version, the device count (`None` when
/// `cuDeviceGetCount` failed), whether `cuDeviceGet` and `cuDeviceGetName` succeeded, the
/// compute capability (`None` when an attribute query failed) and the total memory in bytes
/// (`None` when the query failed). Later answers are ignored once a step failed.
pub fn driver_report(
    init_status: i32,
    driver_version: i32,
    device_count: Option<i32>,
    device_ok: bool,
    name_ok: bool,
    cc: Option<(i32, i32)>,
    total_mem: Option<u64>,
) -> (r: DriverReport)
    requires
        probe_completes(init_status, device_count, device_ok, name_ok) ==> (cc matches Some(
            (a, b),
        ) ==> i32::MIN <= a * 10 <= i32::MAX && i32::MIN <= a * 10 + b <= i32::MAX),
    ensures
        init_status != 0 ==> r == failed_report(ProbeError::InitFailed, false, None),
        init_status == 0 && device_count is None ==> r == failed_report(
            ProbeError::DeviceCountFailed,
            false,
            Some(driver_version_parts(driver_version)),
        ),
        init_status == 0 && device_count == Some(0i32) ==> r == failed_report(
            ProbeError::NoDevices,
            false,
            Some(driver_version_parts(driver_version)),
        ),
        init_status == 0 && (device_count matches Some(n) && n != 0) && !device_ok ==> r
            == failed_report(
            ProbeError::DeviceGetFailed,
            false,
            Some(driver_version_parts(driver_version)),
        ),
        init_status == 0 && (device_count matches Some(n) && n != 0) && device_ok && !name_ok
            ==> r == failed_report(
            ProbeError::NameFailed,
            true,
            Some(driver_version_parts(driver_version)),
        ),
        r.available == (init_status == 0 && (device_count matches Some(n) && n != 0)
            && device_ok),
        (r.error == Some(ProbeError::InitFailed)) == (init_status != 0),
        (r.error == Some(ProbeError::DeviceCountFailed)) == (init_status == 0
            && device_count is None),
        (r.error == Some(ProbeError::NoDevices)) == (init_status == 0 && device_count == Some(
            0i32,
        )),
        (r.error == Some(ProbeError::DeviceGetFailed)) == (init_status == 0 && (
        device_count matches Some(n) && n != 0) && !device_ok),
        (r.error == Some(ProbeError::NameFailed)) == (init_status == 0 && (device_count matches Some(
            n,
        ) && n != 0) && device_ok && !name_ok),
        (r.error is None) == (init_status == 0 && (device_count matches Some(n) && n != 0)
            && device_ok && name_ok),
        (r.driver_version is Some) == (init_status == 0),
        r.error is Some ==> r.compute_capability is None && r.vram_mb is None
            && r.device_count is None && !r.driver_too_old && !r.cc_below_turing,
        r.error is None ==> (total_mem matches Some(m) ==> r.vram_mb matches Some(mb) && mb
            * 1048576 <= m < (mb + 1) * 1048576),
        r.error is None ==> (r.cc_below_turing == (cc matches Some((a, b)) && 10 * a + b < 75)),
        probe_completes(init_status, device_count, device_ok, name_ok) ==> {
            &&& r.available
            &&& r.error is None
            &&& r.driver_version == Some(driver_version_parts(driver_version))
            &&& r.compute_capability == cc
            &&& r.vram_mb == match total_mem {
                Some(m) => Some(mebibytes(m)),
                None => None,
            }
            &&& r.device_count == device_count
            &&& r.driver_too_old == (driver_version < 12000)
            &&& r.cc_below_turing == (cc matches Some((a, b)) && capability_number(a, b) < 75)
        },
{
    if init_status != 0 {
        return DriverReport {
            available: false,
            driver_version: None,
            compute_capability: None,
            vram_mb: None,
            device_count: None,
            error: Some(ProbeError::InitFailed),
            driver_too_old: false,
            cc_below_turing: false,
        };
    }
    let driver_major = driver_version / 1000;
    let driver_minor = (driver_version % 1000) / 10;
    let version = Some((driver_major, driver_minor));
    let count = match device_count {
        Some(n) => n,
        None => {
            return DriverReport {
                available: false,
                driver_version: version,
                compute_capability: None,
                vram_mb: None,
                device_count: None,
                error: Some(ProbeError::DeviceCountFailed),
                driver_too_old: false,
                cc_below_turing: false,
            };
        },
    };
    let failed_step = if count == 0 {
        Some((ProbeError::NoDevices, false))
    } else if !device_ok {
        Some((ProbeError::DeviceGetFailed, false))
    } else if !name_ok {
        Some((ProbeError::NameFailed, true))
    } else {
        None
    };
    if let Some((error, available)) = failed_step {
        return DriverReport {
            available,
            driver_version: version,
            compute_capability: None,
            vram_mb: None,
            device_count: None,
            error: Some(error),
            driver_too_old: false,
            cc_below_turing: false,
        };
    }
    let vram_mb = match total_mem {
        Some(m) => {
            let mb = m / (1024 * 1024);
            proof {
                vstd::arithmetic::div_mod::lemma_fundamental_div_mod(m as int, 1048576);
                assert(mb * 1048576 <= m < (mb + 1) * 1048576) by (nonlinear_arith)
                    requires
                        mb == m / 1048576,
                        m == 1048576 * (m / 1048576) + m % 1048576,
                        0 <= m % 1048576 < 1048576,
                ;
            }
            Some(mb)
        },
        None => None,
    };
    let cc_below_turing = match cc {
        Some((major, minor)) => major * 10 + minor < 75,
        None => false,
    };
    DriverReport {
        available: true,
        driver_version: version,
        compute_capability: cc,
        vram_mb,
        device_count: Some(count),
        error: None,
        driver_too_old: driver_version < 12000,
        cc_below_turing,
    }
}

/// Overall outcome of the GPU diagnostics.
#[derive(Debug, Clone, Copy, PartialEq, Eq)]
pub enum GpuStatus {
    /// OptiX initialised.
    Available,
    /// A CUDA device is usable but OptiX did not initialise.
    NoOptix,
    /// No usable CUDA driver or device.
    NoCudaDriver,
}

/// The diagnostics status from what the CUDA and OptiX probes found.
pub fn gpu_status(cuda_available: bool, optix_available: bool) -> (s: GpuStatus)
    ensures
        (s == GpuStatus::Available) <==> optix_available,
        (s == GpuStatus::NoOptix) <==> (cuda_available && !optix_available),
        (s == GpuStatus::NoCudaDriver) <==> (!cuda_available && !optix_available),
{
    if optix_available {
        GpuStatus::Available
    } else if cuda_available {
        GpuStatus::NoOptix
    } else {
        GpuStatus::NoCudaDriver
    }
}

/// A report of a probe that stopped at a failed step carries exactly that step as its
/// error, the given availability and driver version, and no device details or warnings.
pub proof fn lemma_failed_report_fields(
    error: ProbeError,
    available: bool,
    driver_version: Option<(i32, i32)>,
)
    ensures
        failed_report(error, available, driver_version).available == available,
        failed_report(error, available, driver_version).error == Some(error),
        failed_report(error, available, driver_version).driver_version == driver_version,
        failed_report(error, available, driver_version).compute_capability is None,
        failed_report(error, available, driver_version).vram_mb is None,
        failed_report(error, available, driver_version).device_count is None,
        !failed_report(error, available, driver_version).driver_too_old,
        !failed_report(error, available, driver_version).cc_below_turing,
{
}

/// The driver version parts of a version number `v >= 0` are `(v / 1000, (v % 1000) / 10)`:
/// for example 12040 is driver 12.4.
pub proof fn lemma_driver_version_parts(v: i32)
    requires
        v >= 0,
    ensures
        driver_version_parts(v) == ((v / 1000) as i32, ((v % 1000) / 10) as i32),
        1000 * driver_version_parts(v).0 + 10 * driver_version_parts(v).1 <= v < 1000
            * driver_version_parts(v).0 + 10 * driver_version_parts(v).1 + 10,
{
}

} // verus!
