//! The tray menu: its texts in each supported language, the identifiers of
//! its items, and the action each item stands for.
use vstd::prelude::*;
use crate::text::{
    decimal, lemma_decimal_digits, lemma_parse_decimal_roundtrip, push_decimal, push_str,
    str_equal, string_from_chars,
};

verus! {

/// A language of the tray menu.
#[derive(Clone, Copy, Debug, PartialEq, Eq)]
pub enum Language {
    German,
    English,
    Spanish,
    French,
    Italian,
}

/// The code under which a language is stored in the settings.
pub open spec fn language_code_text(language: Language) -> Seq<char> {
    match language {
        Language::German => "de"@,
        Language::English => "en"@,
        Language::Spanish => "es"@,
        Language::French => "fr"@,
        Language::Italian => "it"@,
    }
}

/// The language stored under `code`, if it is one of the supported codes.
pub open spec fn language_of_code(code: Seq<char>) -> Option<Language> {
    if code == "de"@ {
        Some(Language::German)
    } else if code == "en"@ {
        Some(Language::English)
    } else if code == "es"@ {
        Some(Language::Spanish)
    } else if code == "fr"@ {
        Some(Language::French)
    } else if code == "it"@ {
        Some(Language::Italian)
    } else {
        None
    }
}

/// The settings code of a language.
pub fn language_code(language: Language) -> (r: &'static str)
    ensures
        r@ == language_code_text(language),
{
    match language {
        Language::German => "de",
        Language::English => "en",
        Language::Spanish => "es",
        Language::French => "fr",
        Language::Italian => "it",
    }
}

/// The supported language stored under `code`, if any.
pub fn language_from_code(code: &str) -> (r: Option<Language>)
    ensures
        r == language_of_code(code@),
{
    if str_equal(code, "de") {
        Some(Language::German)
    } else if str_equal(code, "en") {
        Some(Language::English)
    } else if str_equal(code, "es") {
        Some(Language::Spanish)
    } else if str_equal(code, "fr") {
        Some(Language::French)
    } else if str_equal(code, "it") {
        Some(Language::Italian)
    } else {
        None
    }
}

/// The menu language for a stored setting: the stored language when it is
/// supported, English otherwise.
pub open spec fn effective_language(stored: Option<Seq<char>>) -> Language {
    match stored {
        Some(code) => match language_of_code(code) {
            Some(language) => language,
            None => Language::English,
        },
        None => Language::English,
    }
}

/// The menu language for the stored language setting.
pub fn current_language(stored: Option<&str>) -> (r: Language)
    ensures
        r == effective_language(
            match stored {
                Some(s) => Some(s@),
                None => None,
            },
        ),
{
    match stored {
        Some(code) => match language_from_code(code) {
            Some(language) => language,
            None => Language::English,
        },
        None => Language::English,
    }
}

// ---------------------------------------------------------------------------
// Texts
// ---------------------------------------------------------------------------

/// The texts of the tray menu items.
pub struct TrayMenuLabels {
    pub open: &'static str,
    pub hide: &'static str,
    pub refresh: &'static str,
    pub copy_diagnostics: &'static str,
    pub version: &'static str,
    pub launch_on_startup: &'static str,
    pub start_minimized: &'static str,
    pub low_battery_notifications: &'static str,
    pub language: &'static str,
    pub threshold: &'static str,
    pub settings: &'static str,
    pub quit: &'static str,
}

/// The model of the menu texts.
pub struct LabelsModel {
    pub open: Seq<char>,
    pub hide: Seq<char>,
    pub refresh: Seq<char>,
    pub copy_diagnostics: Seq<char>,
    pub version: Seq<char>,
    pub launch_on_startup: Seq<char>,
    pub start_minimized: Seq<char>,
    pub low_battery_notifications: Seq<char>,
    pub language: Seq<char>,
    pub threshold: Seq<char>,
    pub settings: Seq<char>,
    pub quit: Seq<char>,
}

impl View for TrayMenuLabels {
    type V = LabelsModel;

    open spec fn view(&self) -> LabelsModel {
        LabelsModel {
            open: self.open@,
            hide: self.hide@,
            refresh: self.refresh@,
            copy_diagnostics: self.copy_diagnostics@,
            version: self.version@,
            launch_on_startup: self.launch_on_startup@,
            start_minimized: self.start_minimized@,
            low_battery_notifications: self.low_battery_notifications@,
            language: self.language@,
            threshold: self.threshold@,
            settings: self.settings@,
            quit: self.quit@,
        }
    }
}

/// The menu texts for a language code; codes other than `de`, `es`, `fr`
/// and `it` get the English texts.
pub open spec fn menu_labels(code: Seq<char>) -> LabelsModel {
    if code == "de"@ {
        LabelsModel {
            open: "Offnen"@,
            hide: "Ausblenden"@,
            refresh: "Aktualisieren"@,
            copy_diagnostics: "Diagnose kopieren"@,
            version: "Version"@,
            launch_on_startup: "Mit Windows starten"@,
            start_minimized: "Minimiert starten"@,
            low_battery_notifications: "Benachrichtigung bei niedrigem Akkustand"@,
            language: "Sprache"@,
            threshold: "Warnschwelle"@,
            settings: "Einstellungen"@,
            quit: "Beenden"@,
        }
    } else if code == "es"@ {
        LabelsModel {
            open: "Abrir"@,
            hide: "Ocultar"@,
            refresh: "Actualizar"@,
            copy_diagnostics: "Copiar diagnostico"@,
            version: "Version"@,
            launch_on_startup: "Iniciar con Windows"@,
            start_minimized: "Iniciar minimizado"@,
            low_battery_notifications: "Notificaciones de bateria baja"@,
            language: "Idioma"@,
            threshold: "Umbral de alerta"@,
            settings: "Ajustes"@,
            quit: "Salir"@,
        }
    } else if code == "fr"@ {
        LabelsModel {
            open: "Ouvrir"@,
            hide: "Masquer"@,
            refresh: "Actualiser"@,
            copy_diagnostics: "Copier le diagnostic"@,
            version: "Version"@,
            launch_on_startup: "Lancer avec Windows"@,
            start_minimized: "Demarrage discret"@,
            low_battery_notifications: "Notifications batterie faible"@,
            language: "Langue"@,
            threshold: "Seuil d'alerte"@,
            settings: "Reglages"@,
            quit: "Quitter"@,
        }
    } else if code == "it"@ {
        LabelsModel {
            open: "Apri"@,
            hide: "Nascondi"@,
            refresh: "Aggiorna"@,
            copy_diagnostics: "Copia diagnostica"@,
            version: "Versione"@,
            launch_on_startup: "Avvia con Windows"@,
            start_minimized: "Avvio ridotto"@,
            low_battery_notifications: "Notifiche batteria scarica"@,
            language: "Lingua"@,
            threshold: "Soglia di avviso"@,
            settings: "Impostazioni"@,
            quit: "Esci"@,
        }
    } else {
        LabelsModel {
            open: "Open"@,
            hide: "Hide"@,
            refresh: "Refresh"@,
            copy_diagnostics: "Copy diagnostics"@,
            version: "Version"@,
            launch_on_startup: "Launch with Windows"@,
            start_minimized: "Start minimized"@,
            low_battery_notifications: "Low battery notifications"@,
            language: "Language"@,
            threshold: "Alert threshold"@,
            settings: "Settings"@,
            quit: "Quit"@,
        }
    }
}

/// The menu reads in the chosen language: each text of each supported
/// code, and the English texts for every other code.
pub proof fn lemma_menu_texts(code: Seq<char>)
    ensures
        code == "de"@ ==> {
            &&& menu_labels(code).open == "Offnen"@
            &&& menu_labels(code).hide == "Ausblenden"@
            &&& menu_labels(code).refresh == "Aktualisieren"@
            &&& menu_labels(code).copy_diagnostics == "Diagnose kopieren"@
            &&& menu_labels(code).version == "Version"@
            &&& menu_labels(code).launch_on_startup == "Mit Windows starten"@
            &&& menu_labels(code).start_minimized == "Minimiert starten"@
            &&& menu_labels(code).low_battery_notifications == "Benachrichtigung bei niedrigem Akkustand"@
            &&& menu_labels(code).language == "Sprache"@
            &&& menu_labels(code).threshold == "Warnschwelle"@
            &&& menu_labels(code).settings == "Einstellungen"@
            &&& menu_labels(code).quit == "Beenden"@
        },
        code == "es"@ ==> {
            &&& menu_labels(code).open == "Abrir"@
            &&& menu_labels(code).hide == "Ocultar"@
            &&& menu_labels(code).refresh == "Actualizar"@
            &&& menu_labels(code).copy_diagnostics == "Copiar diagnostico"@
            &&& menu_labels(code).version == "Version"@
            &&& menu_labels(code).launch_on_startup == "Iniciar con Windows"@
            &&& menu_labels(code).start_minimized == "Iniciar minimizado"@
            &&& menu_labels(code).low_battery_notifications == "Notificaciones de bateria baja"@
            &&& menu_labels(code).language == "Idioma"@
            &&& menu_labels(code).threshold == "Umbral de alerta"@
            &&& menu_labels(code).settings == "Ajustes"@
            &&& menu_labels(code).quit == "Salir"@
        },
        code == "fr"@ ==> {
            &&& menu_labels(code).open == "Ouvrir"@
            &&& menu_labels(code).hide == "Masquer"@
            &&& menu_labels(code).refresh == "Actualiser"@
            &&& menu_labels(code).copy_diagnostics == "Copier le diagnostic"@
            &&& menu_labels(code).version == "Version"@
            &&& menu_labels(code).launch_on_startup == "Lancer avec Windows"@
            &&& menu_labels(code).start_minimized == "Demarrage discret"@
            &&& menu_labels(code).low_battery_notifications == "Notifications batterie faible"@
            &&& menu_labels(code).language == "Langue"@
            &&& menu_labels(code).threshold == "Seuil d'alerte"@
            &&& menu_labels(code).settings == "Reglages"@
            &&& menu_labels(code).quit == "Quitter"@
        },
        code == "it"@ ==> {
            &&& menu_labels(code).open == "Apri"@
            &&& menu_labels(code).hide == "Nascondi"@
            &&& menu_labels(code).refresh == "Aggiorna"@
            &&& menu_labels(code).copy_diagnostics == "Copia diagnostica"@
            &&& menu_labels(code).version == "Versione"@
            &&& menu_labels(code).launch_on_startup == "Avvia con Windows"@
            &&& menu_labels(code).start_minimized == "Avvio ridotto"@
            &&& menu_labels(code).low_battery_notifications == "Notifiche batteria scarica"@
            &&& menu_labels(code).language == "Lingua"@
            &&& menu_labels(code).threshold == "Soglia di avviso"@
            &&& menu_labels(code).settings == "Impostazioni"@
            &&& menu_labels(code).quit == "Esci"@
        },
        code != "de"@ && code != "es"@ && code != "fr"@ && code != "it"@ ==> {
            &&& menu_labels(code).open == "Open"@
            &&& menu_labels(code).hide == "Hide"@
            &&& menu_labels(code).refresh == "Refresh"@
            &&& menu_labels(code).copy_diagnostics == "Copy diagnostics"@
            &&& menu_labels(code).version == "Version"@
            &&& menu_labels(code).launch_on_startup == "Launch with Windows"@
            &&& menu_labels(code).start_minimized == "Start minimized"@
            &&& menu_labels(code).low_battery_notifications == "Low battery notifications"@
            &&& menu_labels(code).language == "Language"@
            &&& menu_labels(code).threshold == "Alert threshold"@
            &&& menu_labels(code).settings == "Settings"@
            &&& menu_labels(code).quit == "Quit"@
        },
{
    reveal_strlit("de");
    reveal_strlit("es");
    reveal_strlit("fr");
    reveal_strlit("it");
    assert("es"@[0] != "de"@[0]);
    assert("fr"@[0] != "de"@[0] && "fr"@[0] != "es"@[0]);
    assert("it"@[0] != "de"@[0] && "it"@[0] != "es"@[0] && "it"@[0] != "fr"@[0]);
}

/// The texts of the tray menu in the language with code `language`.
pub fn tray_menu_labels(language: &str) -> (r: TrayMenuLabels)
    ensures
        r@ == menu_labels(language@),
{
    if str_equal(language, "de") {
        TrayMenuLabels {
            open: "Offnen",
            hide: "Ausblenden",
            refresh: "Aktualisieren",
            copy_diagnostics: "Diagnose kopieren",
            version: "Version",
            launch_on_startup: "Mit Windows starten",
            start_minimized: "Minimiert starten",
            low_battery_notifications: "Benachrichtigung bei niedrigem Akkustand",
            language: "Sprache",
            threshold: "Warnschwelle",
            settings: "Einstellungen",
            quit: "Beenden",
        }
    } else if str_equal(language, "es") {
        TrayMenuLabels {
            open: "Abrir",
            hide: "Ocultar",
            refresh: "Actualizar",
            copy_diagnostics: "Copiar diagnostico",
            version: "Version",
            launch_on_startup: "Iniciar con Windows",
            start_minimized: "Iniciar minimizado",
            low_battery_notifications: "Notificaciones de bateria baja",
            language: "Idioma",
            threshold: "Umbral de alerta",
            settings: "Ajustes",
            quit: "Salir",
        }
    } else if str_equal(language, "fr") {
        TrayMenuLabels {
            open: "Ouvrir",
            hide: "Masquer",
            refresh: "Actualiser",
            copy_diagnostics: "Copier le diagnostic",
            version: "Version",
            launch_on_startup: "Lancer avec Windows",
            start_minimized: "Demarrage discret",
            low_battery_notifications: "Notifications batterie faible",
            language: "Langue",
            threshold: "Seuil d'alerte",
            settings: "Reglages",
            quit: "Quitter",
        }
    } else if str_equal(language, "it") {
        TrayMenuLabels {
            open: "Apri",
            hide: "Nascondi",
            refresh: "Aggiorna",
            copy_diagnostics: "Copia diagnostica",
            version: "Versione",
            launch_on_startup: "Avvia con Windows",
            start_minimized: "Avvio ridotto",
            low_battery_notifications: "Notifiche batteria scarica",
            language: "Lingua",
            threshold: "Soglia di avviso",
            settings: "Impostazioni",
            quit: "Esci",
        }
    } else {
        TrayMenuLabels {
            open: "Open",
            hide: "Hide",
            refresh: "Refresh",
            copy_diagnostics: "Copy diagnostics",
            version: "Version",
            launch_on_startup: "Launch with Windows",
            start_minimized: "Start minimized",
            low_battery_notifications: "Low battery notifications",
            language: "Language",
            threshold: "Alert threshold",
            settings: "Settings",
            quit: "Quit",
        }
    }
}

/// The text of the version item: `"{label} {version}"`.
pub fn format_version_menu_text(label: &str, version: &str) -> (r: String)
    ensures
        r@ == label@ + " "@ + version@,
{
    let mut out: Vec<char> = Vec::new();
    push_str(&mut out, label);
    push_str(&mut out, " ");
    push_str(&mut out, version);
    string_from_chars(&out)
}

// ---------------------------------------------------------------------------
// Alert thresholds
// ---------------------------------------------------------------------------

/// The low-battery alert thresholds offered in the menu, in percent.
pub open spec fn threshold_values() -> Seq<u8> {
    seq![5u8, 10, 15, 20, 25, 30, 40, 50]
}

/// The thresholds offered in the menu, in menu order.
pub fn threshold_options() -> (r: Vec<u8>)
    ensures
        r@ == threshold_values(),
{
    let r = vec![5u8, 10, 15, 20, 25, 30, 40, 50];
    assert(r@ =~= threshold_values());
    r
}

/// The identifier of the menu item for a threshold.
pub open spec fn threshold_item_id(value: u8) -> Seq<char> {
    "settings_threshold_"@ + decimal(value as nat)
}

/// The identifier of the menu item for a threshold:
/// `"settings_threshold_{value}"`.
pub fn threshold_menu_id(value: u8) -> (r: String)
    ensures
        r@ == threshold_item_id(value),
{
    let mut out: Vec<char> = Vec::new();
    push_str(&mut out, "settings_threshold_");
    push_decimal(&mut out, value as u64);
    string_from_chars(&out)
}

/// The text of the menu item for a threshold: `"{value}%"`.
pub fn threshold_menu_label(value: u8) -> (r: String)
    ensures
        r@ == decimal(value as nat) + "%"@,
{
    let mut out: Vec<char> = Vec::new();
    push_decimal(&mut out, value as u64);
    push_str(&mut out, "%");
    string_from_chars(&out)
}

// ---------------------------------------------------------------------------
// Menu items and actions
// ---------------------------------------------------------------------------

/// What a click on a tray menu item asks for.
#[derive(Clone, Copy, Debug, PartialEq, Eq)]
pub enum MenuAction {
    Open,
    Hide,
    Refresh,
    CopyDiagnostics,
    ToggleLaunchOnStartup,
    ToggleStartMinimized,
    ToggleLowBatteryNotifications,
    SelectLanguage(Language),
    SelectThreshold(u8),
    Quit,
    Ignore,
}

/// The identifier of the menu item for a language.
pub open spec fn language_item_id(language: Language) -> Seq<char> {
    "settings_language_"@ + language_code_text(language)
}

/// The identifier of the menu item for a language:
/// `"settings_language_{code}"`.
pub fn language_menu_id(language: Language) -> (r: String)
    ensures
        r@ == language_item_id(language),
{
    let mut out: Vec<char> = Vec::new();
    push_str(&mut out, "settings_language_");
    push_str(&mut out, language_code(language));
    string_from_chars(&out)
}

/// The threshold whose item has identifier `id`, if any.
pub open spec fn threshold_of_item(id: Seq<char>) -> Option<u8> {
    if exists|k: int| 0 <= k < threshold_values().len() && id == threshold_item_id(
        #[trigger] threshold_values()[k],
    ) {
        Some(
            threshold_values()[choose|k: int|
                0 <= k < threshold_values().len() && id == threshold_item_id(
                    #[trigger] threshold_values()[k],
                )],
        )
    } else {
        None
    }
}

/// The action of the menu item with identifier `id`; unknown identifiers
/// ask for nothing.
pub open spec fn menu_action_of(id: Seq<char>) -> MenuAction {
    if id == "open"@ {
        MenuAction::Open
    } else if id == "hide"@ {
        MenuAction::Hide
    } else if id == "refresh"@ {
        MenuAction::Refresh
    } else if id == "copy_diagnostics"@ {
        MenuAction::CopyDiagnostics
    } else if id == "settings_launch_on_startup"@ {
        MenuAction::ToggleLaunchOnStartup
    } else if id == "settings_start_minimized"@ {
        MenuAction::ToggleStartMinimized
    } else if id == "settings_low_battery_notifications"@ {
        MenuAction::ToggleLowBatteryNotifications
    } else if id == language_item_id(Language::German) {
        MenuAction::SelectLanguage(Language::German)
    } else if id == language_item_id(Language::English) {
        MenuAction::SelectLanguage(Language::English)
    } else if id == language_item_id(Language::Spanish) {
        MenuAction::SelectLanguage(Language::Spanish)
    } else if id == language_item_id(Language::French) {
        MenuAction::SelectLanguage(Language::French)
    } else if id == language_item_id(Language::Italian) {
        MenuAction::SelectLanguage(Language::Italian)
    } else if threshold_of_item(id) is Some {
        MenuAction::SelectThreshold(threshold_of_item(id)->0)
    } else if id == "quit"@ {
        MenuAction::Quit
    } else {
        MenuAction::Ignore
    }
}

/// Two thresholds with the same item identifier are the same threshold.
proof fn lemma_threshold_ids_distinct(a: u8, b: u8)
    requires
        threshold_item_id(a) == threshold_item_id(b),
    ensures
        a == b,
{
    let prefix = "settings_threshold_"@;
    assert(threshold_item_id(a).skip(prefix.len() as int) =~= decimal(a as nat));
    assert(threshold_item_id(b).skip(prefix.len() as int) =~= decimal(b as nat));
    lemma_parse_decimal_roundtrip(a as u64);
    lemma_parse_decimal_roundtrip(b as u64);
}

/// The threshold item with identifier `id`, found by comparing `id` with
/// the identifier of each offered threshold.
fn find_threshold(id: &str) -> (r: Option<u8>)
    ensures
        r == threshold_of_item(id@),
{
    let values = threshold_options();
    let n = values.len();
    for k in 0..n
        invariant
            n == values.len(),
            values@ == threshold_values(),
            forall|j: int| 0 <= j < k ==> id@ != threshold_item_id(#[trigger] threshold_values()[j]),
    {
        let candidate = threshold_menu_id(values[k]);
        if str_equal(id, candidate.as_str()) {
            proof {
                assert(id@ == threshold_item_id(threshold_values()[k as int]));
                let j = choose|j: int|
                    0 <= j < threshold_values().len() && id@ == threshold_item_id(
                        #[trigger] threshold_values()[j],
                    );
                lemma_threshold_ids_distinct(threshold_values()[j], values[k as int]);
            }
            return Some(values[k]);
        }
    }
    None
}

/// The action asked for by the tray menu item with identifier `menu_id`.
pub fn menu_action(menu_id: &str) -> (r: MenuAction)
    ensures
        r == menu_action_of(menu_id@),
{
    if str_equal(menu_id, "open") {
        return MenuAction::Open;
    }
    if str_equal(menu_id, "hide") {
        return MenuAction::Hide;
    }
    if str_equal(menu_id, "refresh") {
        return MenuAction::Refresh;
    }
    if str_equal(menu_id, "copy_diagnostics") {
        return MenuAction::CopyDiagnostics;
    }
    if str_equal(menu_id, "settings_launch_on_startup") {
        return MenuAction::ToggleLaunchOnStartup;
    }
    if str_equal(menu_id, "settings_start_minimized") {
        return MenuAction::ToggleStartMinimized;
    }
    if str_equal(menu_id, "settings_low_battery_notifications") {
        return MenuAction::ToggleLowBatteryNotifications;
    }
    let german = language_menu_id(Language::German);
    if str_equal(menu_id, german.as_str()) {
        return MenuAction::SelectLanguage(Language::German);
    }
    let english = language_menu_id(Language::English);
    if str_equal(menu_id, english.as_str()) {
        return MenuAction::SelectLanguage(Language::English);
    }
    let spanish = language_menu_id(Language::Spanish);
    if str_equal(menu_id, spanish.as_str()) {
        return MenuAction::SelectLanguage(Language::Spanish);
    }
    let french = language_menu_id(Language::French);
    if str_equal(menu_id, french.as_str()) {
        return MenuAction::SelectLanguage(Language::French);
    }
    let italian = language_menu_id(Language::Italian);
    if str_equal(menu_id, italian.as_str()) {
        return MenuAction::SelectLanguage(Language::Italian);
    }
    match find_threshold(menu_id) {
        Some(value) => {
            return MenuAction::SelectThreshold(value);
        },
        None => {},
    }
    if str_equal(menu_id, "quit") {
        return MenuAction::Quit;
    }
    MenuAction::Ignore
}

/// Every language's settings code reads back as that language.
pub proof fn lemma_language_code_roundtrip(language: Language)
    ensures
        language_of_code(language_code_text(language)) == Some(language),
{
    reveal_strlit("de");
    reveal_strlit("en");
    reveal_strlit("es");
    reveal_strlit("fr");
    reveal_strlit("it");
    assert("en"@[0] != "de"@[0]);
    assert("es"@[1] != "en"@[1] && "es"@[0] != "de"@[0]);
    assert("fr"@[0] != "de"@[0] && "fr"@[0] != "en"@[0] && "fr"@[0] != "es"@[0]);
    assert("it"@[0] != "de"@[0] && "it"@[0] != "en"@[0] && "it"@[0] != "es"@[0] && "it"@[0]
        != "fr"@[0]);
}

/// The item of each language asks for that language.
pub proof fn lemma_language_item_action(language: Language)
    ensures
        menu_action_of(language_item_id(language)) == MenuAction::SelectLanguage(language),
{
    reveal_strlit("open");
    reveal_strlit("hide");
    reveal_strlit("refresh");
    reveal_strlit("copy_diagnostics");
    reveal_strlit("settings_launch_on_startup");
    reveal_strlit("settings_start_minimized");
    reveal_strlit("settings_low_battery_notifications");
    reveal_strlit("settings_language_");
    reveal_strlit("settings_threshold_");
    reveal_strlit("quit");
    reveal_strlit("de");
    reveal_strlit("en");
    reveal_strlit("es");
    reveal_strlit("fr");
    reveal_strlit("it");
    let id = language_item_id(language);
    assert(id.len() == 20);
    assert(id[8] == '_' && id[9] == 'l');
    assert(id != "open"@);
    assert(id != "hide"@);
    assert(id != "refresh"@);
    assert(id != "copy_diagnostics"@);
    assert(id != "settings_launch_on_startup"@);
    assert(id != "settings_start_minimized"@);
    assert(id != "settings_low_battery_notifications"@);
    match language {
        Language::German => {},
        Language::English => {
            assert(id[18] == 'e' && id[19] == 'n');
            assert(language_item_id(Language::German)[18] == 'd');
        },
        Language::Spanish => {
            assert(id[19] == 's');
            assert(language_item_id(Language::German)[18] == 'd');
            assert(language_item_id(Language::English)[19] == 'n');
        },
        Language::French => {
            assert(id[18] == 'f');
            assert(language_item_id(Language::German)[18] == 'd');
            assert(language_item_id(Language::English)[18] == 'e');
            assert(language_item_id(Language::Spanish)[18] == 'e');
        },
        Language::Italian => {
            assert(id[18] == 'i');
            assert(language_item_id(Language::German)[18] == 'd');
            assert(language_item_id(Language::English)[18] == 'e');
            assert(language_item_id(Language::Spanish)[18] == 'e');
            assert(language_item_id(Language::French)[18] == 'f');
        },
    }
}

/// The item of each offered threshold asks for that threshold.
pub proof fn lemma_threshold_item_action(k: int)
    requires
        0 <= k < threshold_values().len(),
    ensures
        menu_action_of(threshold_item_id(threshold_values()[k])) == MenuAction::SelectThreshold(
            threshold_values()[k],
        ),
{
    reveal_strlit("open");
    reveal_strlit("hide");
    reveal_strlit("refresh");
    reveal_strlit("copy_diagnostics");
    reveal_strlit("settings_launch_on_startup");
    reveal_strlit("settings_start_minimized");
    reveal_strlit("settings_low_battery_notifications");
    reveal_strlit("settings_language_");
    reveal_strlit("settings_threshold_");
    reveal_strlit("quit");
    reveal_strlit("de");
    reveal_strlit("en");
    reveal_strlit("es");
    reveal_strlit("fr");
    reveal_strlit("it");
    let value = threshold_values()[k];
    let id = threshold_item_id(value);
    lemma_decimal_digits(value as nat);
    assert(id.len() > 19);
    assert(id[9] == 't');
    assert(id != "open"@);
    assert(id != "hide"@);
    assert(id != "refresh"@);
    assert(id != "copy_diagnostics"@);
    assert(id.len() != 26 || id[9] != "settings_launch_on_startup"@[9]);
    assert(id != "settings_launch_on_startup"@);
    assert(id != "settings_start_minimized"@);
    assert(id != "settings_low_battery_notifications"@);
    assert(id != language_item_id(Language::German));
    assert(id != language_item_id(Language::English));
    assert(id != language_item_id(Language::Spanish));
    assert(id != language_item_id(Language::French));
    assert(id != language_item_id(Language::Italian));
    assert(exists|j: int| 0 <= j < threshold_values().len() && id == threshold_item_id(
        #[trigger] threshold_values()[j],
    ));
    let j = choose|j: int|
        0 <= j < threshold_values().len() && id == threshold_item_id(
            #[trigger] threshold_values()[j],
        );
    lemma_threshold_ids_distinct(threshold_values()[j], value);
}

} // verus!
