//! The words the window shows, in both languages.

use vstd::prelude::*;

use crate::settings::Language;

verus! {

/// Every text the window shows that is not a name from the registry.
#[derive(Debug, Clone, Copy)]
pub struct Strings {
    /// The program's name, in the title bar.
    pub app_title: &'static str,
    /// The file type tab.
    pub tab_filetypes: &'static str,
    pub act_hide: &'static str,
    pub act_show: &'static str,
    pub act_shift_only: &'static str,
    pub act_always_show: &'static str,
    pub act_position: &'static str,
    pub act_block: &'static str,
    pub act_unblock: &'static str,
    pub act_delete: &'static str,
    pub pos_top: &'static str,
    pub pos_bottom: &'static str,
    pub pos_default: &'static str,
    pub tip_group_visibility: &'static str,
    pub tip_group_shift: &'static str,
    pub tip_group_systemwide: &'static str,
    pub tip_position: &'static str,
    pub tip_delete: &'static str,
    pub tip_theme_system: &'static str,
    pub tip_theme_light: &'static str,
    pub tip_theme_dark: &'static str,
    pub tip_language: &'static str,
    pub cat_all_files: &'static str,
    pub cat_all_filesystem_objects: &'static str,
    pub cat_directory: &'static str,
    pub cat_directory_background: &'static str,
    pub cat_folder: &'static str,
    pub cat_desktop_background: &'static str,
    pub cat_drive: &'static str,
    pub cat_command_store: &'static str,
    /// The half of a split action that ran without elevation.
    pub direct_part: &'static str,
    /// The half of a split action that ran elevated.
    pub elevated_part: &'static str,
    /// `{}`: how many files came back.
    pub fmt_restored: &'static str,
    /// `{}` twice: how many came back, how many did not.
    pub fmt_restored_partly: &'static str,
    /// `{}`: how many keys a restore removed.
    pub fmt_restore_removed: &'static str,
    pub why_access_denied: &'static str,
    pub why_unauthorised: &'static str,
    pub why_not_found: &'static str,
    pub why_unreachable: &'static str,
    pub why_id_taken: &'static str,
    pub why_key_exists: &'static str,
    pub fav_kind_program: &'static str,
    pub fav_kind_web: &'static str,
    pub fav_mode_open: &'static str,
    pub fav_mode_clipboard: &'static str,
    pub fav_mode_upload: &'static str,
    pub hint_no_selection: &'static str,
    /// `{}` twice: selected rows, and how many of them are read-only.
    pub fmt_selection_readonly: &'static str,
    /// `{}`: selected rows.
    pub fmt_selected_count: &'static str,
    pub seg_mixed: &'static str,
    pub badge_hidden: &'static str,
    pub badge_blocked: &'static str,
    pub badge_win11: &'static str,
    pub badge_readonly: &'static str,
    pub badge_shift: &'static str,
    pub badge_admin: &'static str,
    pub kind_shellex: &'static str,
    pub detail_position: &'static str,
    pub why_hidden_packaged: &'static str,
    pub why_blocked: &'static str,
    pub why_packaged: &'static str,
    pub why_readonly: &'static str,
    pub why_hidden: &'static str,
    pub why_extended: &'static str,
    pub why_com_handler: &'static str,
    pub why_position: &'static str,
    pub why_machine: &'static str,
    pub grp_documents: &'static str,
    pub grp_images: &'static str,
    pub grp_archives: &'static str,
    pub grp_other: &'static str,
    pub grp_gone_programs: &'static str,
    pub grp_own_programs: &'static str,
    pub grp_system_programs: &'static str,
    pub fault_key_name: &'static str,
    pub fault_backslash: &'static str,
    pub fault_display_name: &'static str,
    pub fault_command: &'static str,
    pub fault_percent_one: &'static str,
    pub fault_ampersand: &'static str,
    /// `{}`: the position as written.
    pub fmt_fault_position: &'static str,
    pub fault_command_in_submenu: &'static str,
    /// `{}`: the number of the submenu line.
    pub fmt_fault_child_name: &'static str,
    /// `{}`: the number of the submenu line.
    pub fmt_fault_child_command: &'static str,
    /// `{}`: the key name used twice.
    pub fmt_fault_child_duplicate: &'static str,
    pub fault_category: &'static str,
    pub fault_key_name_refused: &'static str,
    pub fault_fav_name: &'static str,
    pub fault_fav_path: &'static str,
    /// `{}`: the path as written.
    pub fmt_fault_fav_missing_file: &'static str,
    pub fault_fav_address: &'static str,
    pub fault_fav_insecure: &'static str,
    pub fault_fav_not_https: &'static str,
    pub fault_fav_placeholder: &'static str,
}

/// The German texts.
pub open spec fn german_text() -> Strings {
    Strings {
        app_title: "Kontextmenü-Manager",
        tab_filetypes: "Dateitypen",
        act_hide: "Ausblenden",
        act_show: "Einblenden",
        act_shift_only: "Nur mit Umschalt",
        act_always_show: "Immer zeigen",
        act_position: "Position",
        act_block: "Systemweit sperren",
        act_unblock: "Sperre aufheben",
        act_delete: "Löschen",
        pos_top: "oben",
        pos_bottom: "unten",
        pos_default: "keine",
        tip_group_visibility: "Sichtbarkeit: blendet den Eintrag im Kontextmenü aus oder wieder ein.",
        tip_group_shift: "Umschalttaste: zeigt den Eintrag nur, wenn beim Rechtsklick Umschalt gedrückt ist.",
        tip_group_systemwide: "Systemweit: sperrt den COM-Handler für alle Benutzer; braucht Administratorrechte.",
        tip_position: "Position: setzt den Eintrag an den Anfang oder das Ende des Menüs.",
        tip_delete: "Löschen: sichert den Schlüssel und entfernt ihn.",
        tip_theme_system: "Farben wie Windows. Ein Klick wechselt zu hell.",
        tip_theme_light: "Helle Farben. Ein Klick wechselt zu dunkel.",
        tip_theme_dark: "Dunkle Farben. Ein Klick folgt wieder dem System.",
        tip_language: "Deutsch. Ein Klick wechselt zu Englisch.",
        cat_all_files: "Alle Dateien",
        cat_all_filesystem_objects: "Alle Dateisystemobjekte",
        cat_directory: "Ordner",
        cat_directory_background: "Ordnerhintergrund",
        cat_folder: "Ordner und Bibliotheken",
        cat_desktop_background: "Desktophintergrund",
        cat_drive: "Laufwerke",
        cat_command_store: "Befehlsvorrat",
        direct_part: "Direkter Teil",
        elevated_part: "Erhöhter Teil",
        fmt_restored: "{} Datei(en) zurückgespielt.",
        fmt_restored_partly: "{} Datei(en) zurückgespielt, {} fehlgeschlagen.",
        fmt_restore_removed: "{} Schlüssel entfernt, die es bei der Sicherung noch nicht gab.",
        why_access_denied: "Windows hat das Schreiben verweigert. Der Schlüssel gehört wahrscheinlich dem System; mit Administratorrechten erneut versuchen.",
        why_unauthorised: "Der Dienst hat den Schlüssel abgelehnt. Ist er abgelaufen oder falsch eingetragen?",
        why_not_found: "Unter dieser Adresse hat der Dienst nichts. Stimmt der Pfad?",
        why_unreachable: "Der Rechner war nicht erreichbar. Läuft er, und stimmt die Adresse?",
        why_id_taken: "Diese Kennung ist schon vergeben; bitte eine andere wählen.",
        why_key_exists: "Einen Schlüssel dieses Namens gibt es dort schon; bitte einen anderen Namen wählen.",
        fav_kind_program: "Programm",
        fav_kind_web: "Webtool",
        fav_mode_open: "öffnen",
        fav_mode_clipboard: "Zwischenablage",
        fav_mode_upload: "hochladen",
        hint_no_selection: "Nichts ausgewählt – Zeilen anklicken, um sie zu ändern.",
        fmt_selection_readonly: "{} ausgewählt, davon {} nur mit Administratorrechten änderbar",
        fmt_selected_count: "{} ausgewählt",
        seg_mixed: "gemischt",
        badge_hidden: "ausgeblendet",
        badge_blocked: "gesperrt",
        badge_win11: "Win11",
        badge_readonly: "schreibgeschützt",
        badge_shift: "Umschalt",
        badge_admin: "Administrator",
        kind_shellex: "COM-Handler",
        detail_position: "Position",
        why_hidden_packaged: "Für diesen Benutzer gesperrt; das Paket bleibt installiert.",
        why_blocked: "Die CLSID steht auf der systemweiten Sperrliste.",
        why_packaged: "Ein Eintrag des neuen Windows-11-Menüs, von einem Paket mitgebracht.",
        why_readonly: "Dieser Schlüssel lässt sich ohne Administratorrechte nicht schreiben.",
        why_hidden: "LegacyDisable ist gesetzt: Windows zeigt den Eintrag nicht.",
        why_extended: "Extended ist gesetzt: nur mit gedrückter Umschalttaste sichtbar.",
        why_com_handler: "Ein COM-Handler bestimmt seinen Text selbst; hier lässt er sich nicht ändern.",
        why_position: "Position ist gesetzt: der Eintrag steht am Anfang oder Ende des Menüs.",
        why_machine: "Für alle Benutzer eingetragen; Änderungen brauchen Administratorrechte.",
        grp_documents: "Dokumente",
        grp_images: "Bilder",
        grp_archives: "Archive",
        grp_other: "Sonstige",
        grp_gone_programs: "Nicht mehr vorhanden",
        grp_own_programs: "Eigene Programme",
        grp_system_programs: "Windows",
        fault_key_name: "Der Schlüsselname fehlt.",
        fault_backslash: "Der Schlüsselname darf keinen Backslash enthalten.",
        fault_display_name: "Der Anzeigename fehlt.",
        fault_command: "Der Befehl fehlt.",
        fault_percent_one: "Im Hintergrund eines Ordners gibt es keine Datei: %1 bleibt dort leer, %V nennt den Ordner.",
        fault_ampersand: "Ein & im Anzeigenamen unterstreicht den nächsten Buchstaben; für ein sichtbares & bitte && schreiben.",
        fmt_fault_position: "Unbekannte Position „{}“: Windows kennt nur Top und Bottom.",
        fault_command_in_submenu: "Ein Untermenü führt selbst keinen Befehl aus; der Befehl wird ignoriert.",
        fmt_fault_child_name: "Zeile {} des Untermenüs hat keinen Anzeigenamen.",
        fmt_fault_child_command: "Zeile {} des Untermenüs hat keinen Befehl.",
        fmt_fault_child_duplicate: "Der Schlüsselname {} kommt im Untermenü zweimal vor.",
        fault_category: "In diese Kategorie kann kein Eintrag geschrieben werden.",
        fault_key_name_refused: "Dieser Schlüsselname ist nicht verwendbar.",
        fault_fav_name: "Der Name fehlt.",
        fault_fav_path: "Der Programmpfad fehlt.",
        fmt_fault_fav_missing_file: "Die Datei {} gibt es nicht.",
        fault_fav_address: "Die Adresse fehlt.",
        fault_fav_insecure: "Die Adresse ist unverschlüsselt; das muss ausdrücklich erlaubt werden.",
        fault_fav_not_https: "Die Adresse muss mit https:// beginnen.",
        fault_fav_placeholder: "Die Adresse enthält kein {}, an dessen Stelle die Auswahl tritt.",
    }
}

/// The English texts.
pub open spec fn english_text() -> Strings {
    Strings {
        app_title: "Context Menu Manager",
        tab_filetypes: "File types",
        act_hide: "Hide",
        act_show: "Show",
        act_shift_only: "Shift only",
        act_always_show: "Always show",
        act_position: "Position",
        act_block: "Block system-wide",
        act_unblock: "Unblock",
        act_delete: "Delete",
        pos_top: "top",
        pos_bottom: "bottom",
        pos_default: "none",
        tip_group_visibility: "Visibility: hides the entry from the context menu or shows it again.",
        tip_group_shift: "Shift key: shows the entry only when Shift is held during the right-click.",
        tip_group_systemwide: "System-wide: blocks the COM handler for every user; needs administrator rights.",
        tip_position: "Position: puts the entry at the top or the bottom of the menu.",
        tip_delete: "Delete: backs the key up and removes it.",
        tip_theme_system: "Colours follow Windows. A click switches to light.",
        tip_theme_light: "Light colours. A click switches to dark.",
        tip_theme_dark: "Dark colours. A click follows the system again.",
        tip_language: "English. A click switches to German.",
        cat_all_files: "All Files",
        cat_all_filesystem_objects: "All File System Objects",
        cat_directory: "Directory",
        cat_directory_background: "Directory Background",
        cat_folder: "Folders and Libraries",
        cat_desktop_background: "Desktop Background",
        cat_drive: "Drives",
        cat_command_store: "Command Store",
        direct_part: "Direct part",
        elevated_part: "Elevated part",
        fmt_restored: "{} file(s) restored.",
        fmt_restored_partly: "{} file(s) restored, {} failed.",
        fmt_restore_removed: "{} keys removed that did not exist when the backup was taken.",
        why_access_denied: "Windows refused the write. The key most likely belongs to the machine; try again with administrator rights.",
        why_unauthorised: "The service turned the key away. Has it expired, or was it entered wrongly?",
        why_not_found: "The service has nothing at that address. Is the path right?",
        why_unreachable: "The host could not be reached. Is it running, and is the address right?",
        why_id_taken: "That id is already taken; please choose another.",
        why_key_exists: "A key of that name is already there; please choose another name.",
        fav_kind_program: "Program",
        fav_kind_web: "Web tool",
        fav_mode_open: "open",
        fav_mode_clipboard: "clipboard",
        fav_mode_upload: "upload",
        hint_no_selection: "Nothing selected – click rows to change them.",
        fmt_selection_readonly: "{} selected, {} of them need administrator rights",
        fmt_selected_count: "{} selected",
        seg_mixed: "mixed",
        badge_hidden: "hidden",
        badge_blocked: "blocked",
        badge_win11: "Win11",
        badge_readonly: "read-only",
        badge_shift: "Shift",
        badge_admin: "Administrator",
        kind_shellex: "COM handler",
        detail_position: "Position",
        why_hidden_packaged: "Blocked for this user; the package stays installed.",
        why_blocked: "The CLSID is on the system-wide blocked list.",
        why_packaged: "An entry of the new Windows 11 menu, brought by a package.",
        why_readonly: "This key cannot be written without administrator rights.",
        why_hidden: "LegacyDisable is set: Windows does not show the entry.",
        why_extended: "Extended is set: only visible with Shift held.",
        why_com_handler: "A COM handler decides its own text; it cannot be changed here.",
        why_position: "Position is set: the entry stands at the top or the bottom of the menu.",
        why_machine: "Registered for every user; changes need administrator rights.",
        grp_documents: "Documents",
        grp_images: "Images",
        grp_archives: "Archives",
        grp_other: "Other",
        grp_gone_programs: "No longer present",
        grp_own_programs: "Installed programs",
        grp_system_programs: "Windows",
        fault_key_name: "The key name is missing.",
        fault_backslash: "The key name must not contain a backslash.",
        fault_display_name: "The display name is missing.",
        fault_command: "The command is missing.",
        fault_percent_one: "A folder background has no file: %1 stays empty there, %V names the folder.",
        fault_ampersand: "An & in the display name underlines the next letter; write && for a visible one.",
        fmt_fault_position: "Unknown position \"{}\": Windows only knows Top and Bottom.",
        fault_command_in_submenu: "A submenu runs no command of its own; the command is ignored.",
        fmt_fault_child_name: "Line {} of the submenu has no display name.",
        fmt_fault_child_command: "Line {} of the submenu has no command.",
        fmt_fault_child_duplicate: "The key name {} appears twice in the submenu.",
        fault_category: "No entry can be written to this category.",
        fault_key_name_refused: "This key name cannot be used.",
        fault_fav_name: "The name is missing.",
        fault_fav_path: "The program path is missing.",
        fmt_fault_fav_missing_file: "The file {} does not exist.",
        fault_fav_address: "The address is missing.",
        fault_fav_insecure: "The address is unencrypted; that has to be allowed explicitly.",
        fault_fav_not_https: "The address must start with https://.",
        fault_fav_placeholder: "The address holds no {} for the selection to take the place of.",
    }
}

/// The texts of a language.
pub open spec fn text_of(language: Language) -> Strings {
    match language {
        Language::German => german_text(),
        Language::English => english_text(),
    }
}

/// The texts for `language`.
pub fn strings_for(language: Language) -> (result: Strings)
    ensures
        result == text_of(language),
{
    match language {
        Language::German => Strings {
            app_title: "Kontextmenü-Manager",
            tab_filetypes: "Dateitypen",
            act_hide: "Ausblenden",
            act_show: "Einblenden",
            act_shift_only: "Nur mit Umschalt",
            act_always_show: "Immer zeigen",
            act_position: "Position",
            act_block: "Systemweit sperren",
            act_unblock: "Sperre aufheben",
            act_delete: "Löschen",
            pos_top: "oben",
            pos_bottom: "unten",
            pos_default: "keine",
            tip_group_visibility: "Sichtbarkeit: blendet den Eintrag im Kontextmenü aus oder wieder ein.",
            tip_group_shift: "Umschalttaste: zeigt den Eintrag nur, wenn beim Rechtsklick Umschalt gedrückt ist.",
            tip_group_systemwide: "Systemweit: sperrt den COM-Handler für alle Benutzer; braucht Administratorrechte.",
            tip_position: "Position: setzt den Eintrag an den Anfang oder das Ende des Menüs.",
            tip_delete: "Löschen: sichert den Schlüssel und entfernt ihn.",
            tip_theme_system: "Farben wie Windows. Ein Klick wechselt zu hell.",
            tip_theme_light: "Helle Farben. Ein Klick wechselt zu dunkel.",
            tip_theme_dark: "Dunkle Farben. Ein Klick folgt wieder dem System.",
            tip_language: "Deutsch. Ein Klick wechselt zu Englisch.",
            cat_all_files: "Alle Dateien",
            cat_all_filesystem_objects: "Alle Dateisystemobjekte",
            cat_directory: "Ordner",
            cat_directory_background: "Ordnerhintergrund",
            cat_folder: "Ordner und Bibliotheken",
            cat_desktop_background: "Desktophintergrund",
            cat_drive: "Laufwerke",
            cat_command_store: "Befehlsvorrat",
            direct_part: "Direkter Teil",
            elevated_part: "Erhöhter Teil",
            fmt_restored: "{} Datei(en) zurückgespielt.",
            fmt_restored_partly: "{} Datei(en) zurückgespielt, {} fehlgeschlagen.",
            fmt_restore_removed: "{} Schlüssel entfernt, die es bei der Sicherung noch nicht gab.",
            why_access_denied: "Windows hat das Schreiben verweigert. Der Schlüssel gehört wahrscheinlich dem System; mit Administratorrechten erneut versuchen.",
            why_unauthorised: "Der Dienst hat den Schlüssel abgelehnt. Ist er abgelaufen oder falsch eingetragen?",
            why_not_found: "Unter dieser Adresse hat der Dienst nichts. Stimmt der Pfad?",
            why_unreachable: "Der Rechner war nicht erreichbar. Läuft er, und stimmt die Adresse?",
            why_id_taken: "Diese Kennung ist schon vergeben; bitte eine andere wählen.",
            why_key_exists: "Einen Schlüssel dieses Namens gibt es dort schon; bitte einen anderen Namen wählen.",
            fav_kind_program: "Programm",
            fav_kind_web: "Webtool",
            fav_mode_open: "öffnen",
            fav_mode_clipboard: "Zwischenablage",
            fav_mode_upload: "hochladen",
            hint_no_selection: "Nichts ausgewählt – Zeilen anklicken, um sie zu ändern.",
            fmt_selection_readonly: "{} ausgewählt, davon {} nur mit Administratorrechten änderbar",
            fmt_selected_count: "{} ausgewählt",
            seg_mixed: "gemischt",
            badge_hidden: "ausgeblendet",
            badge_blocked: "gesperrt",
            badge_win11: "Win11",
            badge_readonly: "schreibgeschützt",
            badge_shift: "Umschalt",
            badge_admin: "Administrator",
            kind_shellex: "COM-Handler",
            detail_position: "Position",
            why_hidden_packaged: "Für diesen Benutzer gesperrt; das Paket bleibt installiert.",
            why_blocked: "Die CLSID steht auf der systemweiten Sperrliste.",
            why_packaged: "Ein Eintrag des neuen Windows-11-Menüs, von einem Paket mitgebracht.",
            why_readonly: "Dieser Schlüssel lässt sich ohne Administratorrechte nicht schreiben.",
            why_hidden: "LegacyDisable ist gesetzt: Windows zeigt den Eintrag nicht.",
            why_extended: "Extended ist gesetzt: nur mit gedrückter Umschalttaste sichtbar.",
            why_com_handler: "Ein COM-Handler bestimmt seinen Text selbst; hier lässt er sich nicht ändern.",
            why_position: "Position ist gesetzt: der Eintrag steht am Anfang oder Ende des Menüs.",
            why_machine: "Für alle Benutzer eingetragen; Änderungen brauchen Administratorrechte.",
            grp_documents: "Dokumente",
            grp_images: "Bilder",
            grp_archives: "Archive",
            grp_other: "Sonstige",
            grp_gone_programs: "Nicht mehr vorhanden",
            grp_own_programs: "Eigene Programme",
            grp_system_programs: "Windows",
            fault_key_name: "Der Schlüsselname fehlt.",
            fault_backslash: "Der Schlüsselname darf keinen Backslash enthalten.",
            fault_display_name: "Der Anzeigename fehlt.",
            fault_command: "Der Befehl fehlt.",
            fault_percent_one: "Im Hintergrund eines Ordners gibt es keine Datei: %1 bleibt dort leer, %V nennt den Ordner.",
            fault_ampersand: "Ein & im Anzeigenamen unterstreicht den nächsten Buchstaben; für ein sichtbares & bitte && schreiben.",
            fmt_fault_position: "Unbekannte Position „{}“: Windows kennt nur Top und Bottom.",
            fault_command_in_submenu: "Ein Untermenü führt selbst keinen Befehl aus; der Befehl wird ignoriert.",
            fmt_fault_child_name: "Zeile {} des Untermenüs hat keinen Anzeigenamen.",
            fmt_fault_child_command: "Zeile {} des Untermenüs hat keinen Befehl.",
            fmt_fault_child_duplicate: "Der Schlüsselname {} kommt im Untermenü zweimal vor.",
            fault_category: "In diese Kategorie kann kein Eintrag geschrieben werden.",
            fault_key_name_refused: "Dieser Schlüsselname ist nicht verwendbar.",
            fault_fav_name: "Der Name fehlt.",
            fault_fav_path: "Der Programmpfad fehlt.",
            fmt_fault_fav_missing_file: "Die Datei {} gibt es nicht.",
            fault_fav_address: "Die Adresse fehlt.",
            fault_fav_insecure: "Die Adresse ist unverschlüsselt; das muss ausdrücklich erlaubt werden.",
            fault_fav_not_https: "Die Adresse muss mit https:// beginnen.",
            fault_fav_placeholder: "Die Adresse enthält kein {}, an dessen Stelle die Auswahl tritt.",
        },
        Language::English => Strings {
            app_title: "Context Menu Manager",
            tab_filetypes: "File types",
            act_hide: "Hide",
            act_show: "Show",
            act_shift_only: "Shift only",
            act_always_show: "Always show",
            act_position: "Position",
            act_block: "Block system-wide",
            act_unblock: "Unblock",
            act_delete: "Delete",
            pos_top: "top",
            pos_bottom: "bottom",
            pos_default: "none",
            tip_group_visibility: "Visibility: hides the entry from the context menu or shows it again.",
            tip_group_shift: "Shift key: shows the entry only when Shift is held during the right-click.",
            tip_group_systemwide: "System-wide: blocks the COM handler for every user; needs administrator rights.",
            tip_position: "Position: puts the entry at the top or the bottom of the menu.",
            tip_delete: "Delete: backs the key up and removes it.",
            tip_theme_system: "Colours follow Windows. A click switches to light.",
            tip_theme_light: "Light colours. A click switches to dark.",
            tip_theme_dark: "Dark colours. A click follows the system again.",
            tip_language: "English. A click switches to German.",
            cat_all_files: "All Files",
            cat_all_filesystem_objects: "All File System Objects",
            cat_directory: "Directory",
            cat_directory_background: "Directory Background",
            cat_folder: "Folders and Libraries",
            cat_desktop_background: "Desktop Background",
            cat_drive: "Drives",
            cat_command_store: "Command Store",
            direct_part: "Direct part",
            elevated_part: "Elevated part",
            fmt_restored: "{} file(s) restored.",
            fmt_restored_partly: "{} file(s) restored, {} failed.",
            fmt_restore_removed: "{} keys removed that did not exist when the backup was taken.",
            why_access_denied: "Windows refused the write. The key most likely belongs to the machine; try again with administrator rights.",
            why_unauthorised: "The service turned the key away. Has it expired, or was it entered wrongly?",
            why_not_found: "The service has nothing at that address. Is the path right?",
            why_unreachable: "The host could not be reached. Is it running, and is the address right?",
            why_id_taken: "That id is already taken; please choose another.",
            why_key_exists: "A key of that name is already there; please choose another name.",
            fav_kind_program: "Program",
            fav_kind_web: "Web tool",
            fav_mode_open: "open",
            fav_mode_clipboard: "clipboard",
            fav_mode_upload: "upload",
            hint_no_selection: "Nothing selected – click rows to change them.",
            fmt_selection_readonly: "{} selected, {} of them need administrator rights",
            fmt_selected_count: "{} selected",
            seg_mixed: "mixed",
            badge_hidden: "hidden",
            badge_blocked: "blocked",
            badge_win11: "Win11",
            badge_readonly: "read-only",
            badge_shift: "Shift",
            badge_admin: "Administrator",
            kind_shellex: "COM handler",
            detail_position: "Position",
            why_hidden_packaged: "Blocked for this user; the package stays installed.",
            why_blocked: "The CLSID is on the system-wide blocked list.",
            why_packaged: "An entry of the new Windows 11 menu, brought by a package.",
            why_readonly: "This key cannot be written without administrator rights.",
            why_hidden: "LegacyDisable is set: Windows does not show the entry.",
            why_extended: "Extended is set: only visible with Shift held.",
            why_com_handler: "A COM handler decides its own text; it cannot be changed here.",
            why_position: "Position is set: the entry stands at the top or the bottom of the menu.",
            why_machine: "Registered for every user; changes need administrator rights.",
            grp_documents: "Documents",
            grp_images: "Images",
            grp_archives: "Archives",
            grp_other: "Other",
            grp_gone_programs: "No longer present",
            grp_own_programs: "Installed programs",
            grp_system_programs: "Windows",
            fault_key_name: "The key name is missing.",
            fault_backslash: "The key name must not contain a backslash.",
            fault_display_name: "The display name is missing.",
            fault_command: "The command is missing.",
            fault_percent_one: "A folder background has no file: %1 stays empty there, %V names the folder.",
            fault_ampersand: "An & in the display name underlines the next letter; write && for a visible one.",
            fmt_fault_position: "Unknown position \"{}\": Windows only knows Top and Bottom.",
            fault_command_in_submenu: "A submenu runs no command of its own; the command is ignored.",
            fmt_fault_child_name: "Line {} of the submenu has no display name.",
            fmt_fault_child_command: "Line {} of the submenu has no command.",
            fmt_fault_child_duplicate: "The key name {} appears twice in the submenu.",
            fault_category: "No entry can be written to this category.",
            fault_key_name_refused: "This key name cannot be used.",
            fault_fav_name: "The name is missing.",
            fault_fav_path: "The program path is missing.",
            fmt_fault_fav_missing_file: "The file {} does not exist.",
            fault_fav_address: "The address is missing.",
            fault_fav_insecure: "The address is unencrypted; that has to be allowed explicitly.",
            fault_fav_not_https: "The address must start with https://.",
            fault_fav_placeholder: "The address holds no {} for the selection to take the place of.",
        },
    }
}

} // verus!
